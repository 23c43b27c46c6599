use vstd::prelude::*;

pub mod error;
pub mod names;
pub mod keys;
pub mod store;
pub mod dispatch;
pub mod progress;
pub mod widgets;
pub mod laws;

verus! {

/// Whether a file or directory exists at `path`.
/// Relies on std::path::Path::exists, which asks the file system; nothing is promised of
/// the answer, which depends on what is on disk.
#[verifier::external_body]
pub fn file_exists(path: &str) -> bool {
    std::path::Path::new(path).exists()
}

} // verus!
