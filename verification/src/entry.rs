use vstd::prelude::*;
use crate::mode;

verus! {

/// One file or directory of a listing, with what the listing shows of it.
#[derive(Clone)]
pub struct Entry {
    pub name: String,
    /// The name in lower case; the listing is ordered by it.
    pub sort_name: String,
    pub is_dir: bool,
    pub is_exec: bool,
    /// Length in bytes; 0 for a directory.
    pub size: u64,
    /// Modification time in seconds from the Unix epoch.
    pub modified: i64,
    /// Permission string such as "-rw-r--r--".
    pub permissions: String,
}

/// `s` in lower case by `str::to_lowercase` (full Unicode case mapping).
pub uninterp spec fn lowercase(s: Seq<char>) -> Seq<char>;

/// Calls `str::to_lowercase`; the contract claims that the result is the name
/// `lowercase` of the text, a function of the text alone.
#[verifier::external_body]
fn to_lowercase(s: &str) -> (r: String)
    ensures
        r@ == lowercase(s@),
{
    s.to_lowercase()
}

impl Entry {
    /// The entry for a file named `name`: `is_dir` and `len` from its metadata,
    /// `mode` the mode of the entry itself (a link is not followed),
    /// `target_mode` the mode of what it leads to, `modified` its modification
    /// time in seconds from the epoch.
    pub fn new(name: String, is_dir: bool, len: u64, mode: u32, target_mode: u32, modified: i64) -> (r: Entry)
        ensures
            r.name == name,
            r.sort_name@ == lowercase(name@),
            r.is_dir == is_dir,
            r.is_exec == mode::is_executable_spec(is_dir, target_mode),
            r.size == (if is_dir { 0 } else { len }),
            r.modified == modified,
            r.permissions@ == mode::permissions_spec(mode),
    {
        let sort_name = to_lowercase(name.as_str());
        Entry {
            name,
            sort_name,
            is_dir,
            is_exec: mode::is_executable(is_dir, target_mode),
            size: if is_dir { 0 } else { len },
            modified,
            permissions: mode::get_permissions(mode),
        }
    }
}

} // verus!
