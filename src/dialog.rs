use vstd::prelude::*;
use crate::listing::{DirEntryInfo, FileDialogEntries};
use crate::path::{join, join_path, parent, parent_of, SEPARATOR};
use crate::text::{
    buffer_of, buffer_text, buffer_wf, c_text, lemma_buffer_of, lemma_first_nul, make_buffer,
    MAX_TEXT_LENGTH,
};

verus! {

/// One row of a menu: the tag echoed when it is chosen, and its label.
pub struct MenuItem {
    pub tag: String,
    pub item: String,
}

/// Whether a chosen entry names a file or a directory.
#[derive(Clone, Copy, PartialEq, Eq, Structural)]
pub enum SelectedFileType {
    File,
    Directory,
}

/// A shown entry names a directory when it ends with a separator.
pub open spec fn is_dir_name(e: Seq<u8>) -> bool {
    e.len() > 0 && e.last() == SEPARATOR
}

/// The path that a shown entry of directory `path` stands for, and its kind.
pub open spec fn selected_of(path: Seq<u8>, e: Seq<u8>) -> (Seq<u8>, SelectedFileType) {
    if is_dir_name(e) {
        (join(path, e.drop_last()), SelectedFileType::Directory)
    } else {
        (join(path, e), SelectedFileType::File)
    }
}

/// What confirming an entry of a file dialog leads to.
pub enum Activation {
    /// The dialog moves to this directory.
    Enter(Seq<u8>),
    /// The dialog is done, with this file.
    Accept(Seq<u8>),
}

/// What confirming entry `index` of the listing `names` of directory `path`
/// leads to: the first entry of a directory with a parent leads up to it, a
/// directory entry leads into it, and a file entry ends the dialog with its path.
pub open spec fn activation(path: Seq<u8>, names: Seq<Seq<u8>>, index: int) -> Activation {
    if parent_of(path) is Some && index == 0 {
        Activation::Enter(parent_of(path)->0)
    } else {
        let (p, kind) = selected_of(path, names[index]);
        if kind == SelectedFileType::Directory {
            Activation::Enter(p)
        } else {
            Activation::Accept(p)
        }
    }
}

/// A dialog that picks a file.
pub struct FileDialog {
    pub path: Vec<u8>,
    pub entries: FileDialogEntries,
}

/// A dialog that asks for a line of text.
pub struct InputDialog {
    pub text: String,
    pub data: Vec<u8>,
}

/// A dialog that offers tagged rows.
pub struct MenuDialog {
    pub text: String,
    pub menu_height: u32,
    pub items: Vec<MenuItem>,
}

/// The kind of a dialog, with its own state.
pub enum Subdialog {
    File(FileDialog),
    Input(InputDialog),
    Menu(MenuDialog),
}

/// A dialog: its size and its kind.
pub struct Dialog {
    pub width: u32,
    pub height: u32,
    pub subdialog: Subdialog,
}

/// What an accepted dialog hands back.
pub enum DialogOutput {
    /// The chosen file.
    Path(Vec<u8>),
    /// The entered text.
    Text(Vec<u8>),
    /// The tag of the chosen row.
    Tag(String),
}

/// How a dialog ended.
pub enum Outcome {
    Accepted(DialogOutput),
    Cancelled,
}

impl Outcome {
    pub open spec fn spec_code(&self) -> i32 {
        match self {
            Outcome::Accepted(_) => 0,
            Outcome::Cancelled => 1,
        }
    }

    /// The exit code of the dialog: 0 when accepted, 1 when cancelled.
    pub fn code(&self) -> (r: i32)
        ensures
            r == self.spec_code(),
    {
        match self {
            Outcome::Accepted(_) => 0,
            Outcome::Cancelled => 1,
        }
    }
}

/// What the user did in one pass of the interface.
pub enum UiAction {
    /// Nothing that concerns the dialog.
    Idle,
    /// A row of the list or of the menu was chosen.
    Choose(usize),
    /// The confirming button (or the submit key of a text field) was pressed.
    Confirm,
    /// The cancelling button was pressed.
    Cancel,
    /// The abort key was pressed.
    Abort,
    /// The text field now holds these bytes.
    Edit(Vec<u8>),
}

/// What follows from an action.
pub enum Step {
    /// The dialog goes on.
    Continue,
    /// The file dialog moved to this directory, and needs its listing.
    Navigate(Vec<u8>),
    /// The dialog is done.
    Resolved(Outcome),
}

/// Confirming entry `index` of `f` gives `g` and `r`: the dialog moves to the
/// directory that the entry leads to, with its listing awaited, or ends with
/// the path of the file it names.
pub open spec fn file_step(f: FileDialog, index: int, g: FileDialog, r: Step) -> bool {
    match activation(f.path@, f.names(), index) {
        Activation::Enter(p) => {
            &&& r matches Step::Navigate(q) && q@ == p
            &&& g.path@ == p
            &&& g.entries.entries@.len() == 0
        },
        Activation::Accept(p) => {
            &&& r matches Step::Resolved(Outcome::Accepted(DialogOutput::Path(q))) && q@ == p
            &&& g.path == f.path
            &&& g.names() == f.names()
            &&& g.entries.index == index
        },
    }
}

/// What an action does to a file dialog `f`, giving `g` and `r`.
pub open spec fn file_action(f: FileDialog, action: UiAction, g: FileDialog, r: Step) -> bool {
    match action {
        UiAction::Choose(i) => if i < f.entries.entries@.len() {
            file_step(f, i as int, g, r)
        } else {
            r is Continue && g == f
        },
        UiAction::Confirm => if f.entries.entries@.len() > 0 {
            file_step(f, f.entries.index as int, g, r)
        } else {
            r is Continue && g == f
        },
        UiAction::Cancel | UiAction::Abort => r == Step::Resolved(Outcome::Cancelled) && g == f,
        _ => r is Continue && g == f,
    }
}

/// What an action does to a text dialog `d`, giving `e` and `r`.
pub open spec fn input_action(d: InputDialog, action: UiAction, e: InputDialog, r: Step) -> bool {
    match action {
        UiAction::Confirm => {
            &&& r matches Step::Resolved(Outcome::Accepted(DialogOutput::Text(t))) && t@ == c_text(d.data@)
            &&& e == d
        },
        UiAction::Edit(b) => r is Continue && e.text == d.text && e.data@ == buffer_of(b@),
        UiAction::Cancel | UiAction::Abort => r == Step::Resolved(Outcome::Cancelled) && e == d,
        _ => r is Continue && e == d,
    }
}

/// What an action does to a menu dialog `m`, giving `n` and `r`.
pub open spec fn menu_action(m: MenuDialog, action: UiAction, n: MenuDialog, r: Step) -> bool {
    &&& n == m
    &&& match action {
        UiAction::Choose(i) => if i < m.items@.len() {
            r matches Step::Resolved(Outcome::Accepted(DialogOutput::Tag(t))) && t == m.items@[i as int].tag
        } else {
            r is Continue
        },
        UiAction::Cancel | UiAction::Abort => r == Step::Resolved(Outcome::Cancelled),
        _ => r is Continue,
    }
}

/// Loading `listing` into `g` gives `h`: the same directory, listed afresh,
/// with the first entry selected.
pub open spec fn loaded(g: FileDialog, listing: Option<Seq<DirEntryInfo>>, h: FileDialog) -> bool {
    &&& h.wf()
    &&& h.path == g.path
    &&& h.entries.index == 0
    &&& FileDialogEntries::listing_of(g.path@, listing, h.names())
}

impl FileDialog {
    /// The shown entries as byte strings.
    pub open spec fn names(&self) -> Seq<Seq<u8>> {
        self.entries.names()
    }

    pub open spec fn wf(&self) -> bool {
        self.entries.wf()
    }

    /// The path of the selected entry, and whether it is a directory.
    pub fn selected_path(&self) -> (r: (Vec<u8>, SelectedFileType))
        requires
            self.wf(),
            self.entries.entries@.len() > 0,
        ensures
            (r.0@, r.1) == selected_of(self.path@, self.names()[self.entries.index as int]),
    {
        let entry = &self.entries.entries[self.entries.index];
        let n = entry.len();
        if n > 0 && entry[n - 1] == SEPARATOR {
            let mut name: Vec<u8> = Vec::new();
            let mut i: usize = 0;
            while i < n - 1
                invariant
                    n == entry@.len(),
                    n > 0,
                    i <= n - 1,
                    name@ =~= entry@.subrange(0, i as int),
                decreases n - 1 - i,
            {
                name.push(entry[i]);
                i = i + 1;
            }
            assert(name@ =~= entry@.drop_last());
            (join_path(&self.path, &name), SelectedFileType::Directory)
        } else {
            (join_path(&self.path, entry), SelectedFileType::File)
        }
    }

    /// Confirms entry `index`. The dialog either moves to another directory,
    /// whose listing it then awaits, or ends with the path of a file.
    pub fn activate(&mut self, index: usize) -> (r: Step)
        requires
            old(self).wf(),
            index < old(self).entries.entries@.len(),
        ensures
            final(self).wf(),
            file_step(*old(self), index as int, *final(self), r),
    {
        self.entries.index = index;
        if index == 0 {
            if let Some(up) = parent(&self.path) {
                self.path = up.clone();
                self.entries = FileDialogEntries::none();
                return Step::Navigate(up);
            }
        }
        let (selected, kind) = self.selected_path();
        match kind {
            SelectedFileType::File => Step::Resolved(Outcome::Accepted(DialogOutput::Path(selected))),
            SelectedFileType::Directory => {
                self.path = selected.clone();
                self.entries = FileDialogEntries::none();
                Step::Navigate(selected)
            },
        }
    }

    /// Rebuilds the listing of the current directory from what was read of it.
    pub fn load_listing(&mut self, listing: Option<Vec<DirEntryInfo>>)
        ensures
            loaded(*old(self), match listing { Some(l) => Some(l@), None => None }, *final(self)),
    {
        self.entries = FileDialogEntries::new(&self.path, listing);
    }
}

impl InputDialog {
    pub open spec fn wf(&self) -> bool {
        buffer_wf(self.data@)
    }

    /// Stores what the text field holds after an edit, cut to the capacity.
    pub fn store_edit(&mut self, edited: &Vec<u8>)
        ensures
            final(self).wf(),
            final(self).data@ == buffer_of(edited@),
            final(self).text == old(self).text,
    {
        self.data = make_buffer(edited);
    }

    /// The text entered so far.
    pub fn entered_text(&self) -> (r: Vec<u8>)
        ensures
            r@ == c_text(self.data@),
    {
        buffer_text(&self.data)
    }
}

impl Dialog {
    pub open spec fn wf(&self) -> bool {
        match self.subdialog {
            Subdialog::File(f) => f.wf(),
            Subdialog::Input(i) => i.wf(),
            Subdialog::Menu(_) => true,
        }
    }

    /// Applies what the user did in one pass of the interface. Cancelling and
    /// aborting end any dialog with code 1; a file dialog confirms the chosen or
    /// selected entry; a text dialog stores edits and hands back its text when
    /// confirmed; a menu ends with the tag of the chosen row.
    pub fn apply(&mut self, action: UiAction) -> (r: Step)
        requires
            old(self).wf(),
        ensures
            final(self).wf(),
            final(self).width == old(self).width,
            final(self).height == old(self).height,
            match old(self).subdialog {
                Subdialog::File(f) => final(self).subdialog matches Subdialog::File(g)
                    && file_action(f, action, g, r),
                Subdialog::Input(d) => final(self).subdialog matches Subdialog::Input(e)
                    && input_action(d, action, e, r),
                Subdialog::Menu(m) => final(self).subdialog matches Subdialog::Menu(n)
                    && menu_action(m, action, n, r),
            },
    {
        match action {
            UiAction::Cancel | UiAction::Abort => return Step::Resolved(Outcome::Cancelled),
            _ => {},
        }
        match &mut self.subdialog {
            Subdialog::File(f) => match action {
                UiAction::Choose(i) => if i < f.entries.entries.len() {
                    f.activate(i)
                } else {
                    Step::Continue
                },
                UiAction::Confirm => if f.entries.entries.len() > 0 {
                    let i = f.entries.index;
                    f.activate(i)
                } else {
                    Step::Continue
                },
                _ => Step::Continue,
            },
            Subdialog::Input(d) => match action {
                UiAction::Confirm => Step::Resolved(Outcome::Accepted(DialogOutput::Text(d.entered_text()))),
                UiAction::Edit(b) => {
                    d.store_edit(&b);
                    Step::Continue
                },
                _ => Step::Continue,
            },
            Subdialog::Menu(m) => match action {
                UiAction::Choose(i) => if i < m.items.len() {
                    Step::Resolved(Outcome::Accepted(DialogOutput::Tag(m.items[i].tag.clone())))
                } else {
                    Step::Continue
                },
                _ => Step::Continue,
            },
        }
    }

    /// A file dialog on directory `path`, listed from what was read of it.
    pub fn fselect(path: Vec<u8>, width: u32, height: u32, listing: Option<Vec<DirEntryInfo>>) -> (r: Dialog)
        ensures
            r.wf(),
            r.width == width,
            r.height == height,
            r.subdialog matches Subdialog::File(f) && {
                &&& f.path == path
                &&& f.entries.index == 0
                &&& FileDialogEntries::listing_of(
                    path@,
                    match listing { Some(l) => Some(l@), None => None },
                    f.names(),
                )
            },
    {
        let entries = FileDialogEntries::new(&path, listing);
        Dialog { width, height, subdialog: Subdialog::File(FileDialog { path, entries }) }
    }

    /// A text dialog with prompt `text`, whose field starts with `initial`, cut
    /// to the capacity of its buffer.
    pub fn inputbox(text: String, width: u32, height: u32, initial: Option<Vec<u8>>) -> (r: Dialog)
        ensures
            r.wf(),
            r.width == width,
            r.height == height,
            r.subdialog matches Subdialog::Input(d) && {
                &&& d.text == text
                &&& d.data@ == buffer_of(
                    match initial { Some(t) => t@, None => Seq::empty() },
                )
            },
    {
        let data = match initial {
            Some(t) => make_buffer(&t),
            None => make_buffer(&Vec::new()),
        };
        Dialog { width, height, subdialog: Subdialog::Input(InputDialog { text, data }) }
    }

    /// A menu dialog whose rows are taken from `values` two at a time, a tag and
    /// then its label. An odd count leaves a tag without a label, and gives `None`.
    pub fn menu(text: String, width: u32, height: u32, menu_height: u32, values: &Vec<String>) -> (r: Option<Dialog>)
        ensures
            r is None <==> values@.len() % 2 == 1,
            r matches Some(d) ==> {
                &&& d.wf()
                &&& d.width == width
                &&& d.height == height
                &&& d.subdialog matches Subdialog::Menu(m) && {
                    &&& m.text == text
                    &&& m.menu_height == menu_height
                    &&& m.items@.len() * 2 == values@.len()
                    &&& forall|i: int| 0 <= i < m.items@.len() ==> {
                        &&& #[trigger] m.items@[i].tag == values@[2 * i]
                        &&& m.items@[i].item == values@[2 * i + 1]
                    }
                }
            },
    {
        let mut items: Vec<MenuItem> = Vec::new();
        let mut i: usize = 0;
        while i < values.len()
            invariant
                i <= values@.len(),
                i % 2 == 0,
                items@.len() * 2 == i,
                forall|k: int| 0 <= k < items@.len() ==> {
                    &&& #[trigger] items@[k].tag == values@[2 * k]
                    &&& items@[k].item == values@[2 * k + 1]
                },
            decreases values@.len() - i,
        {
            if i + 1 >= values.len() {
                return None;
            }
            items.push(MenuItem { tag: values[i].clone(), item: values[i + 1].clone() });
            i = i + 2;
        }
        Some(Dialog {
            width,
            height,
            subdialog: Subdialog::Menu(MenuDialog { text, menu_height, items }),
        })
    }
}

} // verus!

verus! {

/// Confirming the first entry of a directory that has a parent never ends the
/// dialog: it moves to the parent, and once the parent's listing is loaded the
/// entries are those of the parent, with the first one selected.
pub proof fn up_entry_navigates(
    f: FileDialog,
    g: FileDialog,
    r: Step,
    listing: Option<Seq<DirEntryInfo>>,
    h: FileDialog,
)
    requires
        f.wf(),
        parent_of(f.path@) is Some,
        f.entries.entries@.len() > 0,
        file_step(f, 0, g, r),
        loaded(g, listing, h),
    ensures
        !(r is Resolved),
        r matches Step::Navigate(q) && q@ == parent_of(f.path@)->0,
        g.path@ == parent_of(f.path@)->0,
        h.path@ == parent_of(f.path@)->0,
        h.entries.index == 0,
        FileDialogEntries::listing_of(parent_of(f.path@)->0, listing, h.names()),
{
}

/// Confirming an entry that names a file ends the dialog with code 0 and hands
/// back the entry joined to the directory, which is absolute when the directory is.
pub proof fn file_entry_accepts(f: FileDialog, index: int, g: FileDialog, r: Step)
    requires
        f.wf(),
        0 <= index < f.entries.entries@.len(),
        !(parent_of(f.path@) is Some && index == 0),
        !is_dir_name(f.names()[index]),
        file_step(f, index, g, r),
    ensures
        r matches Step::Resolved(o) && o.spec_code() == 0,
        r matches Step::Resolved(Outcome::Accepted(DialogOutput::Path(q)))
            && q@ == join(f.path@, f.names()[index])
            && (f.path@.len() > 0 && f.path@[0] == SEPARATOR ==> q@[0] == SEPARATOR),
{
    let p = f.path@;
    let n = f.names()[index];
    if p.len() > 0 && p.last() == SEPARATOR {
        assert((p + n)[0] == p[0]);
    } else {
        assert((p.push(SEPARATOR) + n)[0] == p.push(SEPARATOR)[0]);
    }
}

/// Whatever the user does, the edit buffer of a text dialog keeps its capacity
/// and stays terminated.
pub proof fn edits_keep_capacity(d: InputDialog, action: UiAction, e: InputDialog, r: Step)
    requires
        d.wf(),
        input_action(d, action, e, r),
    ensures
        e.wf(),
        e.data@.len() == MAX_TEXT_LENGTH,
{
    if let UiAction::Edit(b) = action {
        lemma_buffer_of(b@);
    }
}

/// Confirming a text dialog that was never edited hands back its initial
/// text, cut to the capacity of the buffer (less its terminator).
pub proof fn initial_text_kept(t: Seq<u8>)
    requires
        forall|i: int| 0 <= i < t.len() ==> t[i] != 0,
    ensures
        c_text(buffer_of(t)) == t.subrange(
            0,
            if t.len() < MAX_TEXT_LENGTH { t.len() as int } else { MAX_TEXT_LENGTH - 1 },
        ),
{
    lemma_buffer_of(t);
    lemma_first_nul(t, t.len() as int);
}

/// Choosing a row of a menu ends the dialog with code 0 and hands back that
/// row's tag, whatever the other rows hold.
pub proof fn menu_row_gives_tag(m: MenuDialog, row: usize, n: MenuDialog, r: Step)
    requires
        row < m.items@.len(),
        menu_action(m, UiAction::Choose(row), n, r),
    ensures
        r matches Step::Resolved(o) && o.spec_code() == 0,
        r matches Step::Resolved(Outcome::Accepted(DialogOutput::Tag(t))) && t == m.items@[row as int].tag,
{
}

} // verus!
