use vstd::prelude::*;
use crate::names::{file_stem, format_of, format_of_name, has_format_suffix, has_suffix, is_hidden, is_hidden_spec, stem_of, Format};

verus! {

/// What can go wrong when saving or loading an object.
#[derive(Debug)]
pub enum StoreError {
    /// The path's suffix does not match the format asked for, or selects no format.
    Configuration { path: String },
    /// Opening, creating or reading a file failed.
    Io { path: String, message: String },
    /// The file's content is not a valid encoding.
    Decode { path: String, message: String },
    /// More bytes came from the file than its size when it was opened.
    Overrun { path: String, processed: usize, read: usize, total: usize },
}

/// Checks that `path` carries the suffix of `format` before it is written or read.
pub fn check_path(path: &str, format: Format) -> (r: Result<(), StoreError>)
    ensures
        r is Ok <==> has_suffix(path@, format.suffix_spec()),
        r matches Err(StoreError::Configuration { path: p }) ==> p@ == path@,
        !(r matches Err(StoreError::Io { .. }) || r matches Err(StoreError::Decode { .. })
            || r matches Err(StoreError::Overrun { .. })),
{
    if has_format_suffix(path, format) {
        Ok(())
    } else {
        Err(StoreError::Configuration { path: String::from_str(path) })
    }
}

/// What loading a directory does with one of its entries.
pub enum EntryAction {
    /// A hidden entry, left alone.
    Skip,
    /// Decode the file at `path` in `format` and store it under `key`.
    Load { path: String, key: String, format: Format },
}

pub open spec fn joined(dir: Seq<char>, name: Seq<char>) -> Seq<char> {
    dir + seq!['/'] + name
}

/// Decides what to do with the entry `name` of directory `dir`: hidden entries are skipped,
/// the others are loaded in the format their suffix selects, and a suffix that selects none
/// is a configuration error.
pub fn plan_entry(dir: &str, name: &str) -> (r: Result<EntryAction, StoreError>)
    ensures
        is_hidden_spec(name@) ==> r matches Ok(EntryAction::Skip),
        !is_hidden_spec(name@) && format_of(name@) is None ==> (r matches Err(
            StoreError::Configuration { path: p },
        ) && p@ == joined(dir@, name@)),
        !is_hidden_spec(name@) && format_of(name@) is Some ==> (r matches Ok(
            EntryAction::Load { path: p, key: k, format: f },
        ) && p@ == joined(dir@, name@) && k@ == stem_of(name@) && Some(f) == format_of(name@)),
{
    if is_hidden(name) {
        return Ok(EntryAction::Skip);
    }
    proof {
        reveal_strlit("/");
    }
    let mut full = String::from_str(dir);
    full.append("/");
    full.append(name);
    assert(full@ =~= joined(dir@, name@));
    match format_of_name(name) {
        Some(format) => Ok(EntryAction::Load { path: full, key: file_stem(name), format }),
        None => Err(StoreError::Configuration { path: full }),
    }
}

/// The line printed after deleting `path`: whether a file was removed or none was there.
pub fn delete_message(path: &str, removed: bool) -> (r: String)
    ensures
        removed ==> r@ == seq!['D', 'e', 'l', 'e', 't', 'e', 'd', ' '] + path@,
        !removed ==> r@ == path@ + " doesn't exist, so not deleting it"@,
{
    if removed {
        proof {
            reveal_strlit("Deleted ");
        }
        let mut r = String::from_str("Deleted ");
        r.append(path);
        assert(r@ =~= seq!['D', 'e', 'l', 'e', 't', 'e', 'd', ' '] + path@);
        r
    } else {
        let mut r = String::from_str(path);
        r.append(" doesn't exist, so not deleting it");
        r
    }
}

} // verus!
