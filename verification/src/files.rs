//! Directory listings of the file browser: in which order the entries are
//! shown.

use vstd::prelude::*;
use crate::text::chars_of;

verus! {

/// One entry of a directory listing.
#[derive(Clone, Debug, PartialEq, Eq)]
pub struct FileInfo {
    pub name: String,
    pub path: String,
    pub is_directory: bool,
    pub size: u64,
    /// Seconds since the epoch.
    pub modified: u64,
}

/// `str::to_lowercase`: the text in lower case, as the Unicode version of
/// the standard library that the program is built with defines it.
pub uninterp spec fn lowercase_of(text: Seq<char>) -> Seq<char>;

/// `str::to_lowercase`.
#[verifier::external_body]
fn to_lowercase(text: &str) -> (s: String)
    ensures
        s@ == lowercase_of(text@),
{
    text.to_lowercase()
}

/// `a` comes before `b` in the order of the dictionary, character by
/// character.
pub open spec fn text_before(a: Seq<char>, b: Seq<char>) -> bool
    decreases a.len(),
{
    if b.len() == 0 {
        false
    } else if a.len() == 0 {
        true
    } else if a[0] != b[0] {
        a[0] < b[0]
    } else {
        text_before(a.skip(1), b.skip(1))
    }
}

/// Whether `a` comes before `b` in the order of the dictionary.
pub fn comes_before(a: &Vec<char>, b: &Vec<char>) -> (r: bool)
    ensures
        r == text_before(a@, b@),
{
    let mut i: usize = 0;
    assert(a@.skip(0) =~= a@);
    assert(b@.skip(0) =~= b@);
    loop
        invariant
            i <= a.len(),
            i <= b.len(),
            text_before(a@, b@) == text_before(a@.skip(i as int), b@.skip(i as int)),
        decreases a.len() - i,
    {
        if i >= b.len() {
            return false;
        }
        if i >= a.len() {
            return true;
        }
        assert(a@.skip(i as int)[0] == a@[i as int]);
        assert(b@.skip(i as int)[0] == b@[i as int]);
        if a[i] != b[i] {
            return a[i] < b[i];
        }
        assert(a@.skip(i as int).skip(1) =~= a@.skip(i + 1));
        assert(b@.skip(i as int).skip(1) =~= b@.skip(i + 1));
        i += 1;
    }
}

/// `a` is shown before `b`: directories come before files, and among
/// directories, and among files, the names decide, in lower case.
pub open spec fn shown_before(
    a_is_directory: bool,
    a_name: Seq<char>,
    b_is_directory: bool,
    b_name: Seq<char>,
) -> bool {
    if a_is_directory != b_is_directory {
        a_is_directory
    } else {
        text_before(lowercase_of(a_name), lowercase_of(b_name))
    }
}

/// Whether the entry `a` is shown before the entry `b`.
pub fn precedes(a: &FileInfo, b: &FileInfo) -> (r: bool)
    ensures
        r == shown_before(a.is_directory, a.name@, b.is_directory, b.name@),
{
    if a.is_directory != b.is_directory {
        a.is_directory
    } else {
        let x = chars_of(to_lowercase(a.name.as_str()).as_str());
        let y = chars_of(to_lowercase(b.name.as_str()).as_str());
        comes_before(&x, &y)
    }
}

} // verus!
