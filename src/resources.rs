use vstd::prelude::*;

verus! {

/// The keyboard mode that translates keys to characters.
pub const K_XLATE: i32 = 1;

/// Where data files are searched for, under a prefix of this program's own.
/// This build knows of no standard data directory, so it never finds one
/// there; a data file is then looked for by its own name.
pub struct BaseDirectories {
    pub prefix: Vec<u8>,
}

/// The data directories could not be set up.
pub struct BaseDirectoriesError {}

impl BaseDirectories {
    /// The data directories under `prefix`.
    pub fn with_prefix(prefix: Vec<u8>) -> (r: Result<BaseDirectories, BaseDirectoriesError>)
        ensures
            r matches Ok(b) && b.prefix == prefix,
    {
        Ok(BaseDirectories { prefix })
    }

    /// The path of data file `name` in the data directories: there are none here.
    pub fn find_data_file(&self, name: &Vec<u8>) -> (r: Option<Vec<u8>>)
        ensures
            r is None,
    {
        None
    }
}

/// A data file that was found nowhere.
pub struct MissingDataFile {
    pub name: Vec<u8>,
}

/// Where data file `name` is read from: where the data directories found it,
/// else under its own name if that exists, else nowhere.
pub fn choose_data_file(found: Option<Vec<u8>>, name: &Vec<u8>, name_exists: bool) -> (r: Result<Vec<u8>, MissingDataFile>)
    ensures
        match found {
            Some(p) => r == Ok::<Vec<u8>, MissingDataFile>(p),
            None => if name_exists {
                r matches Ok(p) && p@ == name@
            } else {
                r matches Err(e) && e.name@ == name@
            },
        },
{
    match found {
        Some(p) => Ok(p),
        None => if name_exists {
            Ok(name.clone())
        } else {
            Err(MissingDataFile { name: name.clone() })
        },
    }
}

/// How the console keyboard is put back when the dialog ends.
#[derive(Clone, Copy, PartialEq, Eq, Structural)]
pub struct KeyboardRestore {
    pub mute: i32,
    pub mode: i32,
}

/// What is put back on the console keyboard at the end: when standard input is
/// a terminal, keys are unmuted and translated again; otherwise nothing.
pub fn shutdown(stdin_is_tty: bool) -> (r: Option<KeyboardRestore>)
    ensures
        stdin_is_tty ==> r == Some(KeyboardRestore { mute: 0, mode: K_XLATE }),
        !stdin_is_tty ==> r is None,
{
    if stdin_is_tty {
        Some(KeyboardRestore { mute: 0, mode: K_XLATE })
    } else {
        None
    }
}

} // verus!
