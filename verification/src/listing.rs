//! Listing parser: turns the tabular text of disk-management tools into
//! disk and partition records.
//!
//! A line is cut into tokens on white space. The first token is the numeric
//! index. The tokens after it are claimed left to right: a single letter as
//! the mount designator, the next number as the offset, a size as the size
//! text, and whatever is left over as the type text. A fixed-column reader
//! could not do this, because the designator column is empty exactly on the
//! rows that matter.

use vstd::prelude::*;
use crate::error::VaultError;
use crate::error::VaultErrorView;
use crate::text::chars_of;
use crate::text::contains;
use crate::text::contains_chars;
use crate::text::decimal_of;
use crate::text::digits_of;
use crate::text::is_ascii_letter;
use crate::text::is_ascii_letter_char;
use crate::text::is_blank;
use crate::text::is_digit;
use crate::text::is_digit_char;
use crate::text::is_space;
use crate::text::join_tokens;
use crate::text::join_with_blanks;
use crate::text::lemma_digits_round_trip;
use crate::text::lemma_tokens_of_join;
use crate::text::lines;
use crate::text::parse_decimal;
use crate::text::parse_decimal_chars;
use crate::text::same_chars;
use crate::text::slice_of;
use crate::text::space_free;
use crate::text::split_lines;
use crate::text::split_tokens;
use crate::text::string_of;
use crate::text::tokens;
use crate::text::views;

verus! {

/// One disk of a disk listing.
#[derive(Clone, Copy, Debug, PartialEq, Eq, Structural)]
pub struct DiskRecord {
    /// The disk's number.
    pub index: u32,
    /// The listing says that the disk is online.
    pub online: bool,
    /// The disk's name suggests removable media.
    pub removable_hint: bool,
}

/// One partition of a partition listing.
#[derive(Clone, Debug, PartialEq, Eq)]
pub struct PartitionRecord {
    /// The disk that was listed.
    pub disk_index: u32,
    /// The partition's number on that disk.
    pub partition_number: u32,
    /// The letter under which the partition is mounted; `None` for a
    /// partition that is not revealed.
    pub mount_designator: Option<char>,
    /// Where the partition starts, in bytes.
    pub offset: Option<u64>,
    /// The size column, as written.
    pub size_descriptor: Option<String>,
    /// The type column, as written.
    pub kind_descriptor: Option<String>,
}

/// The mathematical value of a `PartitionRecord`.
pub struct PartitionRecordView {
    pub disk_index: u32,
    pub partition_number: u32,
    pub mount_designator: Option<char>,
    pub offset: Option<u64>,
    pub size_descriptor: Option<Seq<char>>,
    pub kind_descriptor: Option<Seq<char>>,
}

/// The view of an optional string.
pub open spec fn text_view(s: Option<String>) -> Option<Seq<char>> {
    match s {
        Some(t) => Some(t@),
        None => None,
    }
}

impl View for PartitionRecord {
    type V = PartitionRecordView;

    open spec fn view(&self) -> PartitionRecordView {
        PartitionRecordView {
            disk_index: self.disk_index,
            partition_number: self.partition_number,
            mount_designator: self.mount_designator,
            offset: self.offset,
            size_descriptor: text_view(self.size_descriptor),
            kind_descriptor: text_view(self.kind_descriptor),
        }
    }
}

/// The views of a sequence of partition records.
pub open spec fn record_views(v: Seq<PartitionRecord>) -> Seq<PartitionRecordView> {
    Seq::new(v.len(), |i: int| v[i]@)
}

// ---------------------------------------------------------------------------
// The index column
// ---------------------------------------------------------------------------

/// The number that the first token of a line writes down: decimal digits,
/// with an optional plus sign before them, of a value that fits 32 bits.
pub open spec fn parse_index(t: Seq<char>) -> Option<u32> {
    let body = if t.len() > 0 && t[0] == '+' {
        t.skip(1)
    } else {
        t
    };
    match parse_decimal(body, u32::MAX as nat) {
        Some(n) => Some(n as u32),
        None => None,
    }
}

/// Reads the first token of a line as an index.
pub fn parse_index_chars(t: &Vec<char>) -> (r: Option<u32>)
    ensures
        r == parse_index(t@),
{
    let body = if t.len() > 0 && t[0] == '+' {
        slice_of(t, 1, t.len())
    } else {
        slice_of(t, 0, t.len())
    };
    proof {
        assert(t@.subrange(1, t@.len() as int) =~= t@.skip(1));
        assert(t@.subrange(0, t@.len() as int) =~= t@);
    }
    match parse_decimal_chars(&body, 0xffff_ffff) {
        Some(n) => Some(n as u32),
        None => None,
    }
}

// ---------------------------------------------------------------------------
// Token kinds
// ---------------------------------------------------------------------------

/// A single ASCII letter: a mount designator.
pub open spec fn is_designator_token(t: Seq<char>) -> bool {
    t.len() == 1 && is_ascii_letter(t[0])
}

/// How many of the characters of `t` are full stops.
pub open spec fn count_dots(t: Seq<char>) -> nat
    decreases t.len(),
{
    if t.len() == 0 {
        0
    } else {
        count_dots(t.drop_last()) + if t.last() == '.' {
            1nat
        } else {
            0nat
        }
    }
}

/// Digits and full stops only.
pub open spec fn digits_and_dots(t: Seq<char>) -> bool {
    forall|i: int| 0 <= i < t.len() ==> (is_digit(#[trigger] t[i]) || t[i] == '.')
}

/// A bare decimal: digits, with at most one full stop among them, and at
/// least one digit.
pub open spec fn is_bare_decimal(t: Seq<char>) -> bool {
    digits_and_dots(t) && count_dots(t) <= 1 && count_dots(t) < t.len()
}

/// `t` holds a size unit marker: one of `KB`, `MB`, `GB` and `TB`.
pub open spec fn has_unit_marker(t: Seq<char>) -> bool {
    contains(t, "KB"@) || contains(t, "MB"@) || contains(t, "GB"@) || contains(t, "TB"@)
}

/// A size: a token that holds a size unit marker, or a bare decimal.
pub open spec fn is_size_token(t: Seq<char>) -> bool {
    has_unit_marker(t) || is_bare_decimal(t)
}

fn is_bare_decimal_chars(t: &Vec<char>, len: usize) -> (r: bool)
    requires
        len <= t.len(),
    ensures
        r == is_bare_decimal(t@.take(len as int)),
{
    let ghost s = t@.take(len as int);
    let mut dots: usize = 0;
    let mut i: usize = 0;
    assert(s.take(0) =~= Seq::<char>::empty());
    while i < len
        invariant
            i <= len <= t.len(),
            s == t@.take(len as int),
            dots as nat == count_dots(s.take(i as int)),
            dots <= i,
            forall|j: int| 0 <= j < i ==> (is_digit(#[trigger] s[j]) || s[j] == '.'),
        decreases len - i,
    {
        let c = t[i];
        assert(s[i as int] == c);
        assert(s.take(i + 1).drop_last() =~= s.take(i as int));
        if c == '.' {
            dots += 1;
        } else if !is_digit_char(c) {
            return false;
        }
        i += 1;
    }
    assert(s.take(len as int) =~= s);
    dots <= 1 && dots < len
}

/// Whether `t` is a size.
pub fn is_size_token_chars(t: &Vec<char>) -> (r: bool)
    ensures
        r == is_size_token(t@),
{
    assert(t@.take(t@.len() as int) =~= t@);
    contains_chars(t, &chars_of("KB")) || contains_chars(t, &chars_of("MB")) || contains_chars(
        t,
        &chars_of("GB"),
    ) || contains_chars(t, &chars_of("TB")) || is_bare_decimal_chars(t, t.len())
}

// ---------------------------------------------------------------------------
// Claiming the columns
// ---------------------------------------------------------------------------

/// What the tokens after the index have been claimed as.
pub struct Claims {
    pub designator: Option<char>,
    pub offset: Option<u64>,
    pub size: Option<Seq<char>>,
    pub kind: Option<Seq<char>>,
}

/// Nothing claimed yet.
pub open spec fn no_claims() -> Claims {
    Claims { designator: None, offset: None, size: None, kind: None }
}

/// The claims after one more token `t`.
///
/// The columns keep their order: a designator is claimed only while no
/// offset and no size has been, an offset only while no size has been. Each
/// is claimed once. A token that nothing claims is the type text, and a
/// later such token takes its place.
pub open spec fn claim(c: Claims, t: Seq<char>) -> Claims {
    if c.designator is None && c.offset is None && c.size is None && is_designator_token(t) {
        Claims { designator: Some(t[0]), ..c }
    } else if c.offset is None && c.size is None && parse_decimal(t, u64::MAX as nat) is Some {
        Claims { offset: Some(parse_decimal(t, u64::MAX as nat)->0 as u64), ..c }
    } else if c.size is None && is_size_token(t) {
        Claims { size: Some(t), ..c }
    } else {
        Claims { kind: Some(t), ..c }
    }
}

/// The claims after the tokens `toks`, taken left to right.
pub open spec fn claim_all(toks: Seq<Seq<char>>) -> Claims
    decreases toks.len(),
{
    if toks.len() == 0 {
        no_claims()
    } else {
        claim(claim_all(toks.drop_last()), toks.last())
    }
}

// ---------------------------------------------------------------------------
// Partition lines
// ---------------------------------------------------------------------------

/// The word that marks the header line of a partition listing.
pub open spec fn partition_header() -> Seq<char> {
    "PartitionNumber"@
}

/// The record that a line of a partition listing of disk `disk` holds, if it
/// holds one. Header lines, and lines of fewer than four tokens (blank lines
/// among them), hold none; nor does a line whose first token is no index,
/// such as a separator line.
pub open spec fn partition_line_record(line: Seq<char>, disk: u32) -> Option<PartitionRecordView> {
    let toks = tokens(line);
    if contains(line, partition_header()) || toks.len() < 4 {
        None
    } else {
        match parse_index(toks[0]) {
            None => None,
            Some(n) => {
                let c = claim_all(toks.skip(1));
                Some(
                    PartitionRecordView {
                        disk_index: disk,
                        partition_number: n,
                        mount_designator: c.designator,
                        offset: c.offset,
                        size_descriptor: c.size,
                        kind_descriptor: c.kind,
                    },
                )
            },
        }
    }
}

fn text_of(v: &Option<Vec<char>>) -> (s: Option<String>)
    ensures
        match *v {
            Some(t) => s is Some && s->0@ == t@,
            None => s is None,
        },
{
    match v {
        Some(t) => Some(string_of(t)),
        None => None,
    }
}

fn parse_partition_chars(line: &Vec<char>, disk_index: u32) -> (r: Option<PartitionRecord>)
    ensures
        match partition_line_record(line@, disk_index) {
            Some(v) => r is Some && r->0@ == v,
            None => r is None,
        },
{
    let header = chars_of("PartitionNumber");
    if contains_chars(line, &header) {
        return None;
    }
    let toks = split_tokens(line);
    if toks.len() < 4 {
        return None;
    }
    assert(views(toks@)[0] == toks@[0]@);
    let number = match parse_index_chars(&toks[0]) {
        Some(n) => n,
        None => {
            return None;
        },
    };
    let ghost rest = views(toks@).skip(1);
    let mut designator: Option<char> = None;
    let mut offset: Option<u64> = None;
    let mut size: Option<Vec<char>> = None;
    let mut kind: Option<Vec<char>> = None;
    let mut i: usize = 1;
    assert(rest.take(0) =~= Seq::<Seq<char>>::empty());
    while i < toks.len()
        invariant
            1 <= i <= toks.len(),
            rest == views(toks@).skip(1),
            claim_all(rest.take(i - 1)) == (Claims {
                designator,
                offset,
                size: match size {
                    Some(t) => Some(t@),
                    None => None,
                },
                kind: match kind {
                    Some(t) => Some(t@),
                    None => None,
                },
            }),
        decreases toks.len() - i,
    {
        let t = &toks[i];
        proof {
            assert(rest.take(i as int).drop_last() =~= rest.take(i - 1));
            assert(rest.take(i as int).last() == t@);
        }
        let as_number = parse_decimal_chars(t, 0xffff_ffff_ffff_ffff);
        if designator.is_none() && offset.is_none() && size.is_none() && t.len() == 1
            && is_ascii_letter_char(t[0]) {
            designator = Some(t[0]);
        } else if offset.is_none() && size.is_none() && as_number.is_some() {
            offset = as_number;
        } else if size.is_none() && is_size_token_chars(t) {
            size = Some(slice_of(t, 0, t.len()));
            assert(t@.subrange(0, t@.len() as int) =~= t@);
        } else {
            kind = Some(slice_of(t, 0, t.len()));
            assert(t@.subrange(0, t@.len() as int) =~= t@);
        }
        i += 1;
    }
    assert(rest.take(toks.len() - 1) =~= rest);
    Some(
        PartitionRecord {
            disk_index,
            partition_number: number,
            mount_designator: designator,
            offset,
            size_descriptor: text_of(&size),
            kind_descriptor: text_of(&kind),
        },
    )
}

/// Reads one line of a partition listing of disk `disk_index`.
///
/// Gives the record that the line holds, or `ParseAmbiguous` for a line that
/// holds none.
pub fn parse_partition_line(line: &str, disk_index: u32) -> (r: Result<
    PartitionRecord,
    VaultError,
>)
    ensures
        match partition_line_record(line@, disk_index) {
            Some(v) => r is Ok && r->Ok_0@ == v,
            None => r is Err && r->Err_0@ == VaultErrorView::ParseAmbiguous,
        },
{
    let chars = chars_of(line);
    match parse_partition_chars(&chars, disk_index) {
        Some(rec) => Ok(rec),
        None => Err(VaultError::ParseAmbiguous),
    }
}

// ---------------------------------------------------------------------------
// Disk lines
// ---------------------------------------------------------------------------

/// The word that marks the header line of a disk listing.
pub open spec fn disk_header() -> Seq<char> {
    "Number"@
}

/// The token that says that a disk is online.
pub open spec fn online_word() -> Seq<char> {
    "Online"@
}

/// A token of a disk's name that suggests removable media.
pub open spec fn is_removable_word(t: Seq<char>) -> bool {
    contains(t, "USB"@) || contains(t, "SanDisk"@) || contains(t, "Removable"@)
}

/// One of the tokens is the word `Online`.
pub open spec fn says_online(toks: Seq<Seq<char>>) -> bool {
    exists|i: int| 0 <= i < toks.len() && #[trigger] toks[i] == online_word()
}

/// One of the tokens suggests removable media.
pub open spec fn hints_removable(toks: Seq<Seq<char>>) -> bool {
    exists|i: int| 0 <= i < toks.len() && is_removable_word(#[trigger] toks[i])
}

/// The record that a line of a disk listing holds, if it holds one. The same
/// lines hold none as in a partition listing, with the disk listing's header
/// word.
pub open spec fn disk_line_record(line: Seq<char>) -> Option<DiskRecord> {
    let toks = tokens(line);
    if contains(line, disk_header()) || toks.len() < 4 {
        None
    } else {
        match parse_index(toks[0]) {
            None => None,
            Some(n) => Some(
                DiskRecord {
                    index: n,
                    online: says_online(toks.skip(1)),
                    removable_hint: hints_removable(toks.skip(1)),
                },
            ),
        }
    }
}

fn parse_disk_chars(line: &Vec<char>) -> (r: Option<DiskRecord>)
    ensures
        r == disk_line_record(line@),
{
    let header = chars_of("Number");
    if contains_chars(line, &header) {
        return None;
    }
    let toks = split_tokens(line);
    if toks.len() < 4 {
        return None;
    }
    assert(views(toks@)[0] == toks@[0]@);
    let number = match parse_index_chars(&toks[0]) {
        Some(n) => n,
        None => {
            return None;
        },
    };
    let online_token = chars_of("Online");
    let usb = chars_of("USB");
    let sandisk = chars_of("SanDisk");
    let removable_token = chars_of("Removable");
    let ghost rest = views(toks@).skip(1);
    let mut online = false;
    let mut removable = false;
    let mut i: usize = 1;
    while i < toks.len()
        invariant
            1 <= i <= toks.len(),
            rest == views(toks@).skip(1),
            online_token@ == online_word(),
            usb@ == "USB"@,
            sandisk@ == "SanDisk"@,
            removable_token@ == "Removable"@,
            online == says_online(rest.take(i - 1)),
            removable == hints_removable(rest.take(i - 1)),
        decreases toks.len() - i,
    {
        let t = &toks[i];
        let ghost before = rest.take(i - 1);
        let ghost after = rest.take(i as int);
        proof {
            assert(after.drop_last() =~= before);
            assert(after.last() == t@);
            assert(forall|k: int| 0 <= k < before.len() ==> before[k] == after[k]);
        }
        let is_online = same_chars(t, &online_token);
        let is_hint = contains_chars(t, &usb) || contains_chars(t, &sandisk) || contains_chars(
            t,
            &removable_token,
        );
        proof {
            if says_online(before) {
                let k = choose|k: int| 0 <= k < before.len() && #[trigger] before[k] == online_word();
                assert(after[k] == online_word());
            }
            if is_online {
                assert(after[i - 1] == online_word());
            }
            if hints_removable(before) {
                let k = choose|k: int| 0 <= k < before.len() && is_removable_word(#[trigger] before[k]);
                assert(is_removable_word(after[k]));
            }
            if is_hint {
                assert(is_removable_word(after[i - 1]));
            }
        }
        online = online || is_online;
        removable = removable || is_hint;
        i += 1;
    }
    assert(rest.take(toks.len() - 1) =~= rest);
    Some(DiskRecord { index: number, online, removable_hint: removable })
}

/// Reads one line of a disk listing.
///
/// Gives the record that the line holds, or `ParseAmbiguous` for a line that
/// holds none.
pub fn parse_disk_line(line: &str) -> (r: Result<DiskRecord, VaultError>)
    ensures
        match disk_line_record(line@) {
            Some(v) => r == Ok::<DiskRecord, VaultError>(v),
            None => r is Err && r->Err_0@ == VaultErrorView::ParseAmbiguous,
        },
{
    let chars = chars_of(line);
    match parse_disk_chars(&chars) {
        Some(rec) => Ok(rec),
        None => Err(VaultError::ParseAmbiguous),
    }
}

// ---------------------------------------------------------------------------
// One line, by schema
// ---------------------------------------------------------------------------

/// The column schema of a listing: which columns stand behind the index.
#[derive(Clone, Copy, Debug, PartialEq, Eq, Structural)]
pub enum ListingSchema {
    /// A disk listing: the disk's name, its status, its size.
    Disks,
    /// The partition listing of this disk: the optional designator, the
    /// offset, the size text, the type text.
    Partitions { disk_index: u32 },
}

/// A record of a listing.
#[derive(Clone, Debug, PartialEq, Eq)]
pub enum ListingRecord {
    Disk(DiskRecord),
    Partition(PartitionRecord),
}

/// The mathematical value of a `ListingRecord`.
pub enum ListingRecordView {
    Disk(DiskRecord),
    Partition(PartitionRecordView),
}

impl View for ListingRecord {
    type V = ListingRecordView;

    open spec fn view(&self) -> ListingRecordView {
        match self {
            ListingRecord::Disk(d) => ListingRecordView::Disk(*d),
            ListingRecord::Partition(p) => ListingRecordView::Partition(p@),
        }
    }
}

/// The record that a line holds under a schema, if it holds one.
pub open spec fn line_record(line: Seq<char>, schema: ListingSchema) -> Option<ListingRecordView> {
    match schema {
        ListingSchema::Disks => match disk_line_record(line) {
            Some(d) => Some(ListingRecordView::Disk(d)),
            None => None,
        },
        ListingSchema::Partitions { disk_index } => match partition_line_record(line, disk_index) {
            Some(p) => Some(ListingRecordView::Partition(p)),
            None => None,
        },
    }
}

/// Reads one line of a listing under the schema `schema`.
///
/// Gives the record that the line holds, or `ParseAmbiguous` for a line that
/// holds none.
pub fn parse_line(line: &str, schema: ListingSchema) -> (r: Result<ListingRecord, VaultError>)
    ensures
        match line_record(line@, schema) {
            Some(v) => r is Ok && r->Ok_0@ == v,
            None => r is Err && r->Err_0@ == VaultErrorView::ParseAmbiguous,
        },
{
    match schema {
        ListingSchema::Disks => match parse_disk_line(line) {
            Ok(d) => Ok(ListingRecord::Disk(d)),
            Err(e) => Err(e),
        },
        ListingSchema::Partitions { disk_index } => match parse_partition_line(line, disk_index) {
            Ok(p) => Ok(ListingRecord::Partition(p)),
            Err(e) => Err(e),
        },
    }
}

// ---------------------------------------------------------------------------
// Whole listings
// ---------------------------------------------------------------------------

/// The disk records of the lines `ls`, in listing order. Lines that hold no
/// record are dropped.
pub open spec fn disk_records(ls: Seq<Seq<char>>) -> Seq<DiskRecord>
    decreases ls.len(),
{
    if ls.len() == 0 {
        Seq::empty()
    } else {
        let init = disk_records(ls.drop_last());
        match disk_line_record(ls.last()) {
            Some(r) => init.push(r),
            None => init,
        }
    }
}

/// One of the records is of partition `number`.
pub open spec fn has_partition(recs: Seq<PartitionRecordView>, number: u32) -> bool {
    exists|i: int| 0 <= i < recs.len() && (#[trigger] recs[i]).partition_number == number
}

/// The partition records of the lines `ls` of a listing of disk `disk`, in
/// listing order. Lines that hold no record are dropped. Where two lines
/// speak of the same partition number, the first one stands and the later
/// one is dropped.
pub open spec fn partition_records(ls: Seq<Seq<char>>, disk: u32) -> Seq<PartitionRecordView>
    decreases ls.len(),
{
    if ls.len() == 0 {
        Seq::empty()
    } else {
        let init = partition_records(ls.drop_last(), disk);
        match partition_line_record(ls.last(), disk) {
            Some(r) => if has_partition(init, r.partition_number) {
                init
            } else {
                init.push(r)
            },
            None => init,
        }
    }
}

/// Reads a disk listing: the records of its lines, in order.
pub fn parse_disk_listing(text: &str) -> (out: Vec<DiskRecord>)
    ensures
        out@ == disk_records(lines(text@)),
{
    let chars = chars_of(text);
    let ls = split_lines(&chars);
    let mut out: Vec<DiskRecord> = Vec::new();
    let mut i: usize = 0;
    assert(views(ls@).take(0) =~= Seq::<Seq<char>>::empty());
    while i < ls.len()
        invariant
            i <= ls.len(),
            out@ == disk_records(views(ls@).take(i as int)),
        decreases ls.len() - i,
    {
        proof {
            assert(views(ls@).take(i + 1).drop_last() =~= views(ls@).take(i as int));
            assert(views(ls@).take(i + 1).last() == ls@[i as int]@);
        }
        match parse_disk_chars(&ls[i]) {
            Some(rec) => {
                out.push(rec);
            },
            None => {},
        }
        i += 1;
    }
    assert(views(ls@).take(ls.len() as int) =~= views(ls@));
    out
}

fn holds_partition(recs: &Vec<PartitionRecord>, number: u32) -> (r: bool)
    ensures
        r == has_partition(record_views(recs@), number),
{
    let mut i: usize = 0;
    while i < recs.len()
        invariant
            i <= recs.len(),
            forall|j: int| 0 <= j < i ==> record_views(recs@)[j].partition_number != number,
        decreases recs.len() - i,
    {
        if recs[i].partition_number == number {
            assert(record_views(recs@)[i as int].partition_number == number);
            return true;
        }
        i += 1;
    }
    false
}

/// Reads a partition listing of disk `disk_index`: the records of its lines,
/// in order, the first one of each partition number.
pub fn parse_partition_listing(text: &str, disk_index: u32) -> (out: Vec<PartitionRecord>)
    ensures
        record_views(out@) == partition_records(lines(text@), disk_index),
{
    let chars = chars_of(text);
    let ls = split_lines(&chars);
    let mut out: Vec<PartitionRecord> = Vec::new();
    let mut i: usize = 0;
    assert(views(ls@).take(0) =~= Seq::<Seq<char>>::empty());
    assert(record_views(out@) =~= Seq::<PartitionRecordView>::empty());
    while i < ls.len()
        invariant
            i <= ls.len(),
            record_views(out@) == partition_records(views(ls@).take(i as int), disk_index),
        decreases ls.len() - i,
    {
        proof {
            assert(views(ls@).take(i + 1).drop_last() =~= views(ls@).take(i as int));
            assert(views(ls@).take(i + 1).last() == ls@[i as int]@);
        }
        match parse_partition_chars(&ls[i], disk_index) {
            Some(rec) => {
                if !holds_partition(&out, rec.partition_number) {
                    let ghost before = record_views(out@);
                    out.push(rec);
                    assert(record_views(out@) =~= before.push(rec@));
                }
            },
            None => {},
        }
        i += 1;
    }
    assert(views(ls@).take(ls.len() as int) =~= views(ls@));
    out
}

// ---------------------------------------------------------------------------
// Writing a record down
// ---------------------------------------------------------------------------

/// The tokens that write a record down: the partition's number, then what
/// the record holds of designator, offset, size text and type text, in
/// this order.
pub open spec fn record_tokens(r: PartitionRecordView) -> Seq<Seq<char>> {
    seq![digits_of(r.partition_number as nat)] + (match r.mount_designator {
        Some(c) => seq![seq![c]],
        None => Seq::empty(),
    }) + (match r.offset {
        Some(o) => seq![digits_of(o as nat)],
        None => Seq::empty(),
    }) + (match r.size_descriptor {
        Some(t) => seq![t],
        None => Seq::empty(),
    }) + (match r.kind_descriptor {
        Some(t) => seq![t],
        None => Seq::empty(),
    })
}

/// The line that writes a record down: its tokens, with one blank between
/// neighbours.
pub open spec fn rendered_line(r: PartitionRecordView) -> Seq<char> {
    join_tokens(record_tokens(r))
}

/// Writes a record down as a line of a partition listing.
pub fn render_partition_line(r: &PartitionRecord) -> (line: String)
    ensures
        line@ == rendered_line(r@),
{
    let mut toks: Vec<Vec<char>> = Vec::new();
    toks.push(decimal_of(r.partition_number as u64));
    match r.mount_designator {
        Some(c) => {
            let mut t: Vec<char> = Vec::new();
            t.push(c);
            assert(t@ =~= seq![c]);
            toks.push(t);
        },
        None => {},
    }
    match r.offset {
        Some(o) => {
            toks.push(decimal_of(o));
        },
        None => {},
    }
    match &r.size_descriptor {
        Some(t) => {
            toks.push(chars_of(t.as_str()));
        },
        None => {},
    }
    match &r.kind_descriptor {
        Some(t) => {
            toks.push(chars_of(t.as_str()));
        },
        None => {},
    }
    assert(views(toks@) =~= record_tokens(r@));
    string_of(&join_with_blanks(&toks))
}

/// No two records of a partition listing are of the same partition
/// number: of the lines that speak of one number, the first one stands.
pub proof fn lemma_partition_numbers_are_distinct(ls: Seq<Seq<char>>, disk: u32)
    ensures
        forall|i: int, j: int|
            0 <= i < j < partition_records(ls, disk).len() ==> (#[trigger] partition_records(
                ls,
                disk,
            )[i]).partition_number != (#[trigger] partition_records(ls, disk)[j]).partition_number,
    decreases ls.len(),
{
    if ls.len() > 0 {
        lemma_partition_numbers_are_distinct(ls.drop_last(), disk);
        let init = partition_records(ls.drop_last(), disk);
        let all = partition_records(ls, disk);
        assert forall|i: int, j: int| 0 <= i < j < all.len() implies (#[trigger] all[i]).partition_number
            != (#[trigger] all[j]).partition_number by {
            if all.len() == init.len() + 1 {
                assert(forall|k: int| 0 <= k < init.len() ==> all[k] == init[k]);
                if j == init.len() {
                    assert(!has_partition(init, all[j].partition_number));
                    assert(init[i].partition_number != all[j].partition_number);
                } else {
                    assert(init[i].partition_number != init[j].partition_number);
                }
            } else {
                assert(all == init);
            }
        }
    }
}

/// A separator line holds no record: a line whose first token is made of
/// dashes only is read neither as a disk nor as a partition.
pub proof fn lemma_separator_holds_no_record(line: Seq<char>, disk: u32)
    requires
        tokens(line).len() > 0,
        tokens(line)[0].len() > 0,
        forall|i: int| 0 <= i < tokens(line)[0].len() ==> tokens(line)[0][i] == '-',
    ensures
        partition_line_record(line, disk) is None,
        disk_line_record(line) is None,
{
    let t = tokens(line)[0];
    assert(t[0] == '-');
    assert(!is_digit(t[0]));
    assert(parse_index(t) is None);
}

/// A blank line has no token, and so holds no record.
pub proof fn lemma_blank_holds_no_record(line: Seq<char>, disk: u32)
    requires
        is_blank(line),
    ensures
        tokens(line).len() == 0,
        partition_line_record(line, disk) is None,
        disk_line_record(line) is None,
    decreases line.len(),
{
    if line.len() > 0 {
        let init = line.drop_last();
        assert(forall|i: int| 0 <= i < init.len() ==> init[i] == line[i]);
        lemma_blank_holds_no_record(init, disk);
        assert(is_space(line.last()));
    }
}

/// A record of a well-formed line: it has an offset, a size text that is a
/// token and a size, and a type text that is a token; its designator, if it
/// has one, is a letter; and the line that writes it down does not look
/// like a header line.
pub open spec fn is_full_record(r: PartitionRecordView) -> bool {
    &&& r.mount_designator matches Some(c) ==> is_ascii_letter(c)
    &&& r.offset is Some
    &&& r.size_descriptor matches Some(t) && is_size_token(t) && space_free(t)
    &&& r.kind_descriptor matches Some(t) && t.len() > 0 && space_free(t)
    &&& !contains(rendered_line(r), partition_header())
}

/// A size is not empty.
pub proof fn lemma_size_is_not_empty(t: Seq<char>)
    requires
        is_size_token(t),
    ensures
        t.len() > 0,
{
    reveal_strlit("KB");
    reveal_strlit("MB");
    reveal_strlit("GB");
    reveal_strlit("TB");
}

/// Once the first token behind the index is a number, the line has no
/// designator, and that number is its offset, whatever follows.
pub proof fn lemma_offset_first(toks: Seq<Seq<char>>)
    requires
        toks.len() >= 1,
        parse_decimal(toks[0], u64::MAX as nat) is Some,
    ensures
        claim_all(toks).designator is None,
        claim_all(toks).offset == Some(parse_decimal(toks[0], u64::MAX as nat)->0 as u64),
    decreases toks.len(),
{
    if toks.len() == 1 {
        assert(toks.drop_last() =~= Seq::<Seq<char>>::empty());
        assert(claim_all(toks.drop_last()) == no_claims());
        assert(toks.last() == toks[0]);
        assert(is_digit(toks[0][0]));
    } else {
        assert(toks.drop_last()[0] == toks[0]);
        lemma_offset_first(toks.drop_last());
    }
}

/// On a line whose designator column is missing, so that the number that
/// is the offset stands right behind the index, the parser assigns no
/// designator, and the offset.
pub proof fn lemma_missing_designator(line: Seq<char>, disk: u32)
    requires
        !contains(line, partition_header()),
        tokens(line).len() >= 4,
        parse_index(tokens(line)[0]) is Some,
        parse_decimal(tokens(line)[1], u64::MAX as nat) is Some,
    ensures
        partition_line_record(line, disk) is Some,
        partition_line_record(line, disk)->0.mount_designator is None,
        partition_line_record(line, disk)->0.offset == Some(
            parse_decimal(tokens(line)[1], u64::MAX as nat)->0 as u64,
        ),
{
    let rest = tokens(line).skip(1);
    assert(rest[0] == tokens(line)[1]);
    lemma_offset_first(rest);
}

/// Writing a record of a well-formed line down and reading the line back
/// gives the record.
pub proof fn lemma_line_round_trip(r: PartitionRecordView)
    requires
        is_full_record(r),
    ensures
        partition_line_record(rendered_line(r), r.disk_index) == Some(r),
{
    let toks = record_tokens(r);
    let number = digits_of(r.partition_number as nat);
    let offset = digits_of(r.offset->0 as nat);
    let size = r.size_descriptor->0;
    let kind = r.kind_descriptor->0;
    lemma_digits_round_trip(r.partition_number as nat);
    lemma_digits_round_trip(r.offset->0 as nat);
    lemma_size_is_not_empty(size);
    assert(is_digit(number[0]));
    assert(is_digit(offset[0]));
    assert(parse_index(number) == Some(r.partition_number));
    assert(parse_decimal(offset, u64::MAX as nat) == Some(r.offset->0 as nat));
    let after = match r.mount_designator {
        Some(c) => seq![seq![c], offset, size, kind],
        None => seq![offset, size, kind],
    };
    assert(toks =~= seq![number] + after);
    assert forall|i: int| 0 <= i < toks.len() implies (#[trigger] toks[i]).len() > 0 && space_free(
        toks[i],
    ) by {
        if i >= 1 && r.mount_designator is Some && i == 1 {
            assert(toks[i] == seq![r.mount_designator->0]);
        }
    }
    lemma_tokens_of_join(toks);
    assert(tokens(rendered_line(r)) == toks);
    assert(toks.skip(1) =~= after);
    let c0 = no_claims();
    match r.mount_designator {
        Some(c) => {
            let t0 = seq![c];
            let c1 = claim(c0, t0);
            let c2 = claim(c1, offset);
            let c3 = claim(c2, size);
            let c4 = claim(c3, kind);
            assert(after.drop_last() =~= seq![t0, offset, size]);
            assert(after.drop_last().drop_last() =~= seq![t0, offset]);
            assert(after.drop_last().drop_last().drop_last() =~= seq![t0]);
            assert(seq![t0].drop_last() =~= Seq::<Seq<char>>::empty());
            assert(claim_all(seq![t0]) == c1) by {
                assert(seq![t0].last() == t0);
                assert(claim_all(seq![t0].drop_last()) == c0);
            }
            assert(claim_all(seq![t0, offset]) == c2) by {
                assert(seq![t0, offset].drop_last() =~= seq![t0]);
            }
            assert(claim_all(seq![t0, offset, size]) == c3) by {
                assert(seq![t0, offset, size].drop_last() =~= seq![t0, offset]);
            }
            assert(claim_all(after) == c4);
            assert(is_designator_token(t0));
        },
        None => {
            let c1 = claim(c0, offset);
            let c2 = claim(c1, size);
            let c3 = claim(c2, kind);
            assert(after.drop_last() =~= seq![offset, size]);
            assert(seq![offset].drop_last() =~= Seq::<Seq<char>>::empty());
            assert(claim_all(seq![offset]) == c1) by {
                assert(seq![offset].last() == offset);
                assert(claim_all(seq![offset].drop_last()) == c0);
            }
            assert(claim_all(seq![offset, size]) == c2) by {
                assert(seq![offset, size].drop_last() =~= seq![offset]);
            }
            assert(claim_all(after) == c3);
            assert(!is_designator_token(offset));
        },
    }
}

} // verus!
