//! Mounted-volume listings: which partitions are mounted under a designator
//! that marks a revealed concealed volume.
//!
//! Concealed volumes are revealed under the last letter, so that a mounted
//! partition whose designator is `Z` or comes after it is a revealed
//! concealed volume.

use vstd::prelude::*;
use crate::listing::parse_index;
use crate::listing::parse_index_chars;
use crate::listing::partition_header;
use crate::text::chars_of;
use crate::text::contains;
use crate::text::contains_chars;
use crate::text::lines;
use crate::text::split_lines;
use crate::text::split_tokens;
use crate::text::tokens;
use crate::text::views;

verus! {

/// The designator under which a concealed volume is revealed.
pub const CONCEALED_DESIGNATOR: char = 'Z';

/// `char::is_alphabetic`: the Unicode property Alphabetic, in the Unicode
/// version of the standard library that the program is built with.
pub uninterp spec fn char_is_alphabetic(c: char) -> bool;

/// `char::is_alphabetic`.
#[verifier::external_body]
fn is_alphabetic(c: char) -> (r: bool)
    ensures
        r == char_is_alphabetic(c),
{
    c.is_alphabetic()
}

/// A mounted partition that counts as a revealed concealed volume.
#[derive(Clone, Copy, Debug, PartialEq, Eq, Structural)]
pub struct MountedPartition {
    pub partition_number: u32,
    pub designator: char,
}

/// A designator that marks a revealed concealed volume: a letter that is
/// `Z` or comes after it.
pub open spec fn marks_concealed(c: char) -> bool {
    char_is_alphabetic(c) && c >= CONCEALED_DESIGNATOR
}

/// The revealed concealed volume that a line of a mounted-volume listing
/// holds, if it holds one: the line is no header line, its first token is
/// the partition's number, and its second token begins with the designator.
pub open spec fn mounted_line_record(line: Seq<char>) -> Option<MountedPartition> {
    let toks = tokens(line);
    if contains(line, partition_header()) || toks.len() < 2 {
        None
    } else {
        match parse_index(toks[0]) {
            None => None,
            Some(n) => if toks[1].len() > 0 && marks_concealed(toks[1][0]) {
                Some(MountedPartition { partition_number: n, designator: toks[1][0] })
            } else {
                None
            },
        }
    }
}

/// The revealed concealed volumes of the lines `ls`, in listing order.
pub open spec fn mounted_records(ls: Seq<Seq<char>>) -> Seq<MountedPartition>
    decreases ls.len(),
{
    if ls.len() == 0 {
        Seq::empty()
    } else {
        let init = mounted_records(ls.drop_last());
        match mounted_line_record(ls.last()) {
            Some(r) => init.push(r),
            None => init,
        }
    }
}

/// The designator of the first revealed concealed volume of a
/// mounted-volume listing; `None` where the listing shows none.
pub open spec fn active_designator(mount_listing: Seq<char>) -> Option<char> {
    let found = mounted_records(lines(mount_listing));
    if found.len() > 0 {
        Some(found[0].designator)
    } else {
        None
    }
}

fn parse_mounted_chars(line: &Vec<char>) -> (r: Option<MountedPartition>)
    ensures
        r == mounted_line_record(line@),
{
    let header = chars_of("PartitionNumber");
    if contains_chars(line, &header) {
        return None;
    }
    let toks = split_tokens(line);
    if toks.len() < 2 {
        return None;
    }
    assert(views(toks@)[0] == toks@[0]@);
    assert(views(toks@)[1] == toks@[1]@);
    let number = match parse_index_chars(&toks[0]) {
        Some(n) => n,
        None => {
            return None;
        },
    };
    if toks[1].len() == 0 {
        return None;
    }
    let c = toks[1][0];
    if is_alphabetic(c) && c >= CONCEALED_DESIGNATOR {
        Some(MountedPartition { partition_number: number, designator: c })
    } else {
        None
    }
}

/// Reads a mounted-volume listing: the revealed concealed volumes of its
/// lines, in order.
pub fn parse_mount_listing(text: &str) -> (out: Vec<MountedPartition>)
    ensures
        out@ == mounted_records(lines(text@)),
{
    let chars = chars_of(text);
    let ls = split_lines(&chars);
    let mut out: Vec<MountedPartition> = Vec::new();
    let mut i: usize = 0;
    assert(views(ls@).take(0) =~= Seq::<Seq<char>>::empty());
    while i < ls.len()
        invariant
            i <= ls.len(),
            out@ == mounted_records(views(ls@).take(i as int)),
        decreases ls.len() - i,
    {
        proof {
            assert(views(ls@).take(i + 1).drop_last() =~= views(ls@).take(i as int));
            assert(views(ls@).take(i + 1).last() == ls@[i as int]@);
        }
        match parse_mounted_chars(&ls[i]) {
            Some(rec) => {
                out.push(rec);
            },
            None => {},
        }
        i += 1;
    }
    assert(views(ls@).take(ls.len() as int) =~= views(ls@));
    out
}

/// The designator of the first revealed concealed volume that a
/// mounted-volume listing shows.
pub fn find_active_designator(text: &str) -> (r: Option<char>)
    ensures
        r == active_designator(text@),
{
    let found = parse_mount_listing(text);
    if found.len() > 0 {
        Some(found[0].designator)
    } else {
        None
    }
}

} // verus!
