//! What the directory publisher decides for each entry and each pass.

use vstd::prelude::*;

verus! {

/// Why a directory entry is not published.
#[derive(Clone, Copy, Debug, PartialEq, Eq, Structural)]
pub enum Rejection {
    NotAFile,
    UnsupportedImage,
}

impl Rejection {
    /// The text of the error that reports the rejection.
    pub fn message(&self) -> (m: &'static str)
        ensures
            *self == Rejection::NotAFile ==> m@ == "not a file"@,
            *self == Rejection::UnsupportedImage ==> m@ == "not a supported image file"@,
    {
        match self {
            Rejection::NotAFile => "not a file",
            Rejection::UnsupportedImage => "not a supported image file",
        }
    }
}

/// Whether an entry is published: only a regular file that decodes as an
/// image is. Whether it decodes matters only for a regular file, the only
/// kind that is opened.
pub fn entry_rejection(is_file: bool, decoded: bool) -> (r: Option<Rejection>)
    ensures
        r == (if !is_file {
            Some(Rejection::NotAFile)
        } else if !decoded {
            Some(Rejection::UnsupportedImage)
        } else {
            None
        }),
{
    if !is_file {
        Some(Rejection::NotAFile)
    } else if !decoded {
        Some(Rejection::UnsupportedImage)
    } else {
        None
    }
}

/// The number of messages published so far in a pass after one more entry,
/// and whether to sleep a period now: after each published entry.
pub fn after_entry(num_pubs: i32, published: bool) -> (r: (i32, bool))
    requires
        published ==> num_pubs < i32::MAX,
    ensures
        r == (if published {
            ((num_pubs + 1) as i32, true)
        } else {
            (num_pubs, false)
        }),
{
    if published {
        (num_pubs + 1, true)
    } else {
        (num_pubs, false)
    }
}

/// Whether to sleep a period after a pass over the directory: only when it
/// published nothing, so an empty directory is not read in a busy loop.
pub fn sleep_after_pass(num_pubs: i32) -> (r: bool)
    ensures
        r == (num_pubs == 0),
{
    num_pubs == 0
}

} // verus!
