use imdialog::dialog::{Dialog, Step, UiAction};
use imdialog::input::{EventEffect, EventQueue, InputEvent, InputState, Modifiers, ESCAPE_SCANCODE, KEY_COUNT};
use imdialog::path::{join_path, parent};
use imdialog::resources::{choose_data_file, shutdown, BaseDirectories, KeyboardRestore, K_XLATE};
use imdialog::session::Session;

const NO_MODS: Modifiers = Modifiers { shift: false, ctrl: false, alt: false, gui: false };

#[test]
fn key_events_update_key_table_and_modifiers() {
    let mut s = InputState::new();
    assert_eq!(s.keys_down.len(), KEY_COUNT);
    let shift = Modifiers { shift: true, ctrl: false, alt: false, gui: false };
    assert!(s.apply_event(InputEvent::KeyDown { scancode: Some(5), mods: shift }) == EventEffect::Continue);
    assert!(s.keys_down[5]);
    assert!(s.mods == shift);
    assert!(s.apply_event(InputEvent::KeyUp { scancode: Some(5), mods: NO_MODS }) == EventEffect::Continue);
    assert!(!s.keys_down[5]);
    assert!(s.mods == NO_MODS);
}

#[test]
fn out_of_range_scancode_leaves_key_table() {
    let mut s = InputState::new();
    s.apply_event(InputEvent::KeyDown { scancode: Some(300), mods: NO_MODS });
    s.apply_event(InputEvent::KeyDown { scancode: Some(-1), mods: NO_MODS });
    assert!(s.keys_down.iter().all(|&k| !k));
}

#[test]
fn escape_aborts_and_quit_quits() {
    let mut s = InputState::new();
    assert!(s.apply_event(InputEvent::KeyDown { scancode: Some(ESCAPE_SCANCODE), mods: NO_MODS }) == EventEffect::Abort);
    assert!(s.apply_event(InputEvent::Quit) == EventEffect::Quit);
    assert!(s.apply_event(InputEvent::Other) == EventEffect::Continue);
}

#[test]
fn text_with_zero_byte_is_dropped() {
    let mut s = InputState::new();
    s.apply_event(InputEvent::TextInput(b"ab".to_vec()));
    s.apply_event(InputEvent::TextInput(b"c\0d".to_vec()));
    s.apply_event(InputEvent::TextInput(b"e".to_vec()));
    assert_eq!(s.take_text(), vec![b"ab".to_vec(), b"e".to_vec()]);
    assert!(s.take_text().is_empty());
}

#[test]
fn pointer_is_recorded() {
    let mut s = InputState::new();
    s.set_pointer(12, 34, true, false, true);
    assert_eq!((s.mouse_x, s.mouse_y), (12, 34));
    assert_eq!(s.mouse_down, (true, false, true));
}

#[test]
fn queue_is_first_in_first_out() {
    let mut q = EventQueue::new();
    assert!(q.needs_wait());
    q.push(InputEvent::TextInput(b"1".to_vec()));
    q.push(InputEvent::Quit);
    assert!(!q.needs_wait());
    assert!(matches!(q.pop_front(), Some(InputEvent::TextInput(_))));
    assert!(matches!(q.pop_front(), Some(InputEvent::Quit)));
    assert!(q.pop_front().is_none());
}

#[test]
fn events_queued_before_confirm_take_one_iteration_each() {
    let values: Vec<String> = ["a", "A"].iter().map(|s| s.to_string()).collect();
    let mut s = Session::new(Dialog::menu("p".to_string(), 1, 1, 1, &values).unwrap());
    for _ in 0..3 {
        s.push_event(InputEvent::Other);
    }
    s.push_event(InputEvent::KeyDown { scancode: Some(ESCAPE_SCANCODE), mods: NO_MODS });
    let mut iterations = 0;
    while s.exit_code.is_none() {
        iterations += 1;
        assert!(s.apply_next_event().is_some());
    }
    assert_eq!(iterations, 4);
    assert_eq!(s.exit_code, Some(1));
    assert!(s.apply_next_event().is_none());
}

#[test]
fn decided_session_ignores_further_actions() {
    let values: Vec<String> = ["a", "A", "b", "B"].iter().map(|s| s.to_string()).collect();
    let mut s = Session::new(Dialog::menu("p".to_string(), 1, 1, 1, &values).unwrap());
    assert!(matches!(s.ui_pass(UiAction::Idle), Step::Continue));
    assert!(matches!(s.ui_pass(UiAction::Choose(0)), Step::Resolved(_)));
    assert_eq!(s.exit_code, Some(0));
    assert!(matches!(s.ui_pass(UiAction::Cancel), Step::Continue));
    assert_eq!(s.exit_code, Some(0));
}

#[test]
fn quit_event_ends_with_code_zero() {
    let mut s = Session::new(Dialog::inputbox("p".to_string(), 1, 1, None));
    assert!(s.needs_wait());
    s.push_event(InputEvent::Quit);
    assert!(s.apply_next_event() == Some(EventEffect::Quit));
    assert_eq!(s.exit_code, Some(0));
}

#[test]
fn parent_and_join_of_paths() {
    assert_eq!(parent(&b"/tmp/a".to_vec()), Some(b"/tmp".to_vec()));
    assert_eq!(parent(&b"/tmp".to_vec()), Some(b"/".to_vec()));
    assert_eq!(parent(&b"/".to_vec()), None);
    assert_eq!(parent(&b"".to_vec()), None);
    assert_eq!(parent(&b"rel".to_vec()), Some(vec![]));
    assert_eq!(join_path(&b"/".to_vec(), &b"etc".to_vec()), b"/etc".to_vec());
    assert_eq!(join_path(&b"/tmp".to_vec(), &b"b.txt".to_vec()), b"/tmp/b.txt".to_vec());
}

#[test]
fn data_file_search_order() {
    let dirs = BaseDirectories::with_prefix(b"imdialog/".to_vec()).ok().unwrap();
    assert_eq!(dirs.prefix, b"imdialog/".to_vec());
    assert!(dirs.find_data_file(&b"Muli.ttf".to_vec()).is_none());
    let name = b"Muli.ttf".to_vec();
    assert_eq!(choose_data_file(Some(b"/usr/share/Muli.ttf".to_vec()), &name, true).ok(), Some(b"/usr/share/Muli.ttf".to_vec()));
    assert_eq!(choose_data_file(None, &name, true).ok(), Some(name.clone()));
    match choose_data_file(None, &name, false) {
        Err(e) => assert_eq!(e.name, name),
        Ok(_) => panic!("expected a missing file"),
    }
}

#[test]
fn shutdown_restores_terminal_keyboard_only() {
    assert!(shutdown(true) == Some(KeyboardRestore { mute: 0, mode: K_XLATE }));
    assert!(shutdown(false).is_none());
}
