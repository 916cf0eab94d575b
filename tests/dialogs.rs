use imdialog::dialog::{Dialog, DialogOutput, Outcome, SelectedFileType, Step, Subdialog, UiAction};
use imdialog::listing::{DirEntryInfo, FileDialogEntries};
use imdialog::text::MAX_TEXT_LENGTH;

fn entry(name: &str, is_dir: bool) -> DirEntryInfo {
    DirEntryInfo { name: Some(name.as_bytes().to_vec()), is_dir }
}

fn names(e: &FileDialogEntries) -> Vec<String> {
    e.entries.iter().map(|n| String::from_utf8(n.clone()).unwrap()).collect()
}

fn file_dialog(d: &Dialog) -> &imdialog::dialog::FileDialog {
    match &d.subdialog {
        Subdialog::File(f) => f,
        _ => panic!("not a file dialog"),
    }
}

#[test]
fn listing_is_sorted_marked_and_led_by_up_entry() {
    let raw = vec![entry("b.txt", false), entry("a", true), entry("B", false), entry("a.b", false)];
    let e = FileDialogEntries::new(&b"/tmp".to_vec(), Some(raw));
    assert_eq!(names(&e), vec!["Up one level", "B", "a.b", "a/", "b.txt"]);
    assert_eq!(e.index, 0);
}

#[test]
fn listing_of_root_has_no_up_entry() {
    let e = FileDialogEntries::new(&b"/".to_vec(), Some(vec![entry("tmp", true), entry("etc", true)]));
    assert_eq!(names(&e), vec!["etc/", "tmp/"]);
}

#[test]
fn listing_skips_undecodable_names() {
    let raw = vec![DirEntryInfo { name: None, is_dir: false }, entry("x", false)];
    let e = FileDialogEntries::new(&b"/home".to_vec(), Some(raw));
    assert_eq!(names(&e), vec!["Up one level", "x"]);
}

#[test]
fn unreadable_directory_lists_nothing() {
    let e = FileDialogEntries::new(&b"/tmp".to_vec(), None);
    assert!(e.entries.is_empty());
    assert_eq!(e.index, 0);
}

#[test]
fn empty_directory_lists_only_up_entry() {
    let e = FileDialogEntries::new(&b"/tmp".to_vec(), Some(vec![]));
    assert_eq!(names(&e), vec!["Up one level"]);
}

#[test]
fn file_select_scenario() {
    let mut d = Dialog::fselect(b"/tmp".to_vec(), 400, 300, Some(vec![entry("b.txt", false), entry("a", true)]));
    assert_eq!(d.width, 400);
    assert_eq!(d.height, 300);
    assert_eq!(names(&file_dialog(&d).entries), vec!["Up one level", "a/", "b.txt"]);

    // Entering "a/" asks for the listing of /tmp/a.
    match d.apply(UiAction::Choose(1)) {
        Step::Navigate(p) => assert_eq!(p, b"/tmp/a".to_vec()),
        _ => panic!("expected navigation"),
    }
    if let Subdialog::File(f) = &mut d.subdialog {
        f.load_listing(Some(vec![entry("c.txt", false)]));
    }
    assert_eq!(names(&file_dialog(&d).entries), vec!["Up one level", "c.txt"]);
    assert_eq!(file_dialog(&d).entries.index, 0);

    // Going up leads back to /tmp.
    match d.apply(UiAction::Choose(0)) {
        Step::Navigate(p) => assert_eq!(p, b"/tmp".to_vec()),
        _ => panic!("expected navigation"),
    }
    if let Subdialog::File(f) = &mut d.subdialog {
        f.load_listing(Some(vec![entry("b.txt", false), entry("a", true)]));
    }

    // Choosing "b.txt" ends the dialog with its path and code 0.
    match d.apply(UiAction::Choose(2)) {
        Step::Resolved(o) => {
            assert_eq!(o.code(), 0);
            match o {
                Outcome::Accepted(DialogOutput::Path(p)) => assert_eq!(p, b"/tmp/b.txt".to_vec()),
                _ => panic!("expected a path"),
            }
        }
        _ => panic!("expected an answer"),
    }
}

#[test]
fn up_entry_from_top_level_directory_leads_to_root() {
    let mut d = Dialog::fselect(b"/tmp".to_vec(), 10, 10, Some(vec![entry("f", false)]));
    match d.apply(UiAction::Choose(0)) {
        Step::Navigate(p) => assert_eq!(p, b"/".to_vec()),
        _ => panic!("expected navigation"),
    }
    assert_eq!(file_dialog(&d).path, b"/".to_vec());
}

#[test]
fn confirm_button_confirms_the_selected_entry() {
    let mut d = Dialog::fselect(b"/".to_vec(), 10, 10, Some(vec![entry("etc", true), entry("z", false)]));
    if let Subdialog::File(f) = &mut d.subdialog {
        f.entries.index = 1;
    }
    match d.apply(UiAction::Confirm) {
        Step::Resolved(Outcome::Accepted(DialogOutput::Path(p))) => assert_eq!(p, b"/z".to_vec()),
        _ => panic!("expected an answer"),
    }
}

#[test]
fn selected_path_strips_directory_marker() {
    let d = Dialog::fselect(b"/".to_vec(), 10, 10, Some(vec![entry("etc", true)]));
    let (p, kind) = file_dialog(&d).selected_path();
    assert_eq!(p, b"/etc".to_vec());
    assert!(kind == SelectedFileType::Directory);
}

#[test]
fn choosing_outside_the_list_does_nothing() {
    let mut d = Dialog::fselect(b"/".to_vec(), 10, 10, Some(vec![entry("etc", true)]));
    assert!(matches!(d.apply(UiAction::Choose(5)), Step::Continue));
    let mut empty = Dialog::fselect(b"/none".to_vec(), 10, 10, None);
    assert!(matches!(empty.apply(UiAction::Confirm), Step::Continue));
}

#[test]
fn cancel_and_abort_give_code_one() {
    let mut d = Dialog::fselect(b"/".to_vec(), 10, 10, None);
    match d.apply(UiAction::Cancel) {
        Step::Resolved(o) => assert_eq!(o.code(), 1),
        _ => panic!("expected an answer"),
    }
    let mut m = Dialog::menu("p".to_string(), 1, 1, 24, &vec!["t".to_string(), "l".to_string()]).unwrap();
    match m.apply(UiAction::Abort) {
        Step::Resolved(o) => assert_eq!(o.code(), 1),
        _ => panic!("expected an answer"),
    }
    let mut i = Dialog::inputbox("p".to_string(), 1, 1, None);
    match i.apply(UiAction::Abort) {
        Step::Resolved(Outcome::Cancelled) => {}
        _ => panic!("expected a cancel"),
    }
}

#[test]
fn menu_scenario() {
    let values: Vec<String> = ["yes", "Confirm", "no", "Abort"].iter().map(|s| s.to_string()).collect();
    let mut d = Dialog::menu("Pick one".to_string(), 300, 200, 24, &values).unwrap();
    match &d.subdialog {
        Subdialog::Menu(m) => {
            assert_eq!(m.items.len(), 2);
            assert_eq!(m.items[1].item, "Abort");
            assert_eq!(m.menu_height, 24);
        }
        _ => panic!("not a menu"),
    }
    match d.apply(UiAction::Choose(1)) {
        Step::Resolved(o) => {
            assert_eq!(o.code(), 0);
            match o {
                Outcome::Accepted(DialogOutput::Tag(t)) => assert_eq!(t, "no"),
                _ => panic!("expected a tag"),
            }
        }
        _ => panic!("expected an answer"),
    }
}

#[test]
fn menu_with_unpaired_tag_is_refused() {
    let values: Vec<String> = ["yes", "Confirm", "no"].iter().map(|s| s.to_string()).collect();
    assert!(Dialog::menu("Pick one".to_string(), 300, 200, 24, &values).is_none());
}

#[test]
fn menu_with_repeated_tags_echoes_the_chosen_row() {
    let values: Vec<String> = ["x", "first", "x", "second", "y", "third"].iter().map(|s| s.to_string()).collect();
    let mut d = Dialog::menu("p".to_string(), 1, 1, 1, &values).unwrap();
    match d.apply(UiAction::Choose(2)) {
        Step::Resolved(Outcome::Accepted(DialogOutput::Tag(t))) => assert_eq!(t, "y"),
        _ => panic!("expected a tag"),
    }
}

#[test]
fn input_submits_initial_text() {
    let mut d = Dialog::inputbox("Name?".to_string(), 300, 100, Some(b"hello".to_vec()));
    match d.apply(UiAction::Confirm) {
        Step::Resolved(Outcome::Accepted(DialogOutput::Text(t))) => assert_eq!(t, b"hello".to_vec()),
        _ => panic!("expected text"),
    }
}

#[test]
fn input_initial_text_is_cut_to_capacity() {
    let long = vec![b'a'; 2000];
    let mut d = Dialog::inputbox("p".to_string(), 1, 1, Some(long));
    match &d.subdialog {
        Subdialog::Input(i) => {
            assert_eq!(i.data.len(), MAX_TEXT_LENGTH);
            assert_eq!(i.data[MAX_TEXT_LENGTH - 1], 0);
        }
        _ => panic!("not an input dialog"),
    }
    match d.apply(UiAction::Confirm) {
        Step::Resolved(Outcome::Accepted(DialogOutput::Text(t))) => assert_eq!(t, vec![b'a'; MAX_TEXT_LENGTH - 1]),
        _ => panic!("expected text"),
    }
}

#[test]
fn input_edits_keep_capacity_and_stop_at_terminator() {
    let mut d = Dialog::inputbox("p".to_string(), 1, 1, None);
    assert!(matches!(d.apply(UiAction::Edit(vec![b'z'; 5000])), Step::Continue));
    match &d.subdialog {
        Subdialog::Input(i) => assert_eq!(i.data.len(), MAX_TEXT_LENGTH),
        _ => panic!("not an input dialog"),
    }
    assert!(matches!(d.apply(UiAction::Edit(b"ab\0cd".to_vec())), Step::Continue));
    match &d.subdialog {
        Subdialog::Input(i) => {
            assert_eq!(i.data.len(), MAX_TEXT_LENGTH);
            assert!(i.data[2..].iter().all(|&b| b == 0));
            assert_eq!(i.entered_text(), b"ab".to_vec());
        }
        _ => panic!("not an input dialog"),
    }
    match d.apply(UiAction::Confirm) {
        Step::Resolved(Outcome::Accepted(DialogOutput::Text(t))) => assert_eq!(t, b"ab".to_vec()),
        _ => panic!("expected text"),
    }
}

#[test]
fn empty_input_submits_empty_text() {
    let mut d = Dialog::inputbox("p".to_string(), 1, 1, None);
    match d.apply(UiAction::Confirm) {
        Step::Resolved(Outcome::Accepted(DialogOutput::Text(t))) => assert!(t.is_empty()),
        _ => panic!("expected text"),
    }
}
