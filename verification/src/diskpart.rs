//! Scripts for the disk partitioning tool and readers for what it and the
//! other volume tools print.

use vstd::prelude::*;
use crate::listing::parse_index;
use crate::listing::parse_index_chars;
use crate::text::chars_of;
use crate::text::contains;
use crate::text::contains_chars;
use crate::text::decimal_of;
use crate::text::digits_of;
use crate::text::lines;
use crate::text::push_all;
use crate::text::push_str;
use crate::text::same_chars;
use crate::text::split_lines;
use crate::text::split_tokens;
use crate::text::string_of;
use crate::text::tokens;
use crate::text::views;

verus! {

// ---------------------------------------------------------------------------
// Numbers in lines
// ---------------------------------------------------------------------------

/// The first of the tokens that writes down an index.
pub open spec fn first_number(toks: Seq<Seq<char>>) -> Option<u32>
    decreases toks.len(),
{
    if toks.len() == 0 {
        None
    } else {
        match first_number(toks.drop_last()) {
            Some(n) => Some(n),
            None => parse_index(toks.last()),
        }
    }
}

fn first_number_chars(line: &Vec<char>) -> (r: Option<u32>)
    ensures
        r == first_number(tokens(line@)),
{
    let toks = split_tokens(line);
    let ghost all = views(toks@);
    let mut i: usize = 0;
    assert(all.take(0) =~= Seq::<Seq<char>>::empty());
    while i < toks.len()
        invariant
            i <= toks.len(),
            all == views(toks@),
            all == tokens(line@),
            first_number(all.take(i as int)) is None,
        decreases toks.len() - i,
    {
        proof {
            assert(all.take(i + 1).drop_last() =~= all.take(i as int));
            assert(all.take(i + 1).last() == toks@[i as int]@);
        }
        match parse_index_chars(&toks[i]) {
            Some(n) => {
                proof {
                    lemma_first_number_extends(all, i + 1);
                }
                return Some(n);
            },
            None => {},
        }
        i += 1;
    }
    assert(all.take(toks.len() as int) =~= all);
    None
}

proof fn lemma_first_number_extends(toks: Seq<Seq<char>>, k: int)
    requires
        0 <= k <= toks.len(),
        first_number(toks.take(k)) is Some,
    ensures
        first_number(toks) == first_number(toks.take(k)),
    decreases toks.len() - k,
{
    if k == toks.len() {
        assert(toks.take(k) =~= toks);
    } else {
        assert(toks.take(k + 1).drop_last() =~= toks.take(k));
        lemma_first_number_extends(toks, k + 1);
    }
}

/// The partition number of a line of a partition listing: the first number
/// in the line.
pub fn extract_partition_number(line: &str) -> (r: Option<u32>)
    ensures
        r == first_number(tokens(line@)),
{
    first_number_chars(&chars_of(line))
}

/// The disk number of a line such as `Disk 0    Online    465 GB    0 B`:
/// the first number in the line. The word `Disk` is no number, so that it
/// need not be passed over.
pub fn extract_disk_number(line: &str) -> (r: Option<u32>)
    ensures
        r == first_number(tokens(line@)),
{
    first_number_chars(&chars_of(line))
}

// ---------------------------------------------------------------------------
// Hidden partitions
// ---------------------------------------------------------------------------

/// The name under which a hidden partition is shown.
pub open spec fn partition_name(n: u32) -> Seq<char> {
    "Partition "@ + digits_of(n as nat)
}

/// The hidden partition that a line of a partition listing shows, if it
/// shows one: the line holds the label `ENCRYPTED`, does not hold the word
/// `Letter`, and holds a number.
pub open spec fn hidden_partition_of(line: Seq<char>) -> Option<u32> {
    if contains(line, "ENCRYPTED"@) && !contains(line, "Letter"@) {
        first_number(tokens(line))
    } else {
        None
    }
}

/// The names of the hidden partitions of the lines `ls`, in listing order.
pub open spec fn hidden_partition_names(ls: Seq<Seq<char>>) -> Seq<Seq<char>>
    decreases ls.len(),
{
    if ls.len() == 0 {
        Seq::empty()
    } else {
        let init = hidden_partition_names(ls.drop_last());
        match hidden_partition_of(ls.last()) {
            Some(n) => init.push(partition_name(n)),
            None => init,
        }
    }
}

/// The views of a sequence of strings.
pub open spec fn string_views(v: Seq<String>) -> Seq<Seq<char>> {
    Seq::new(v.len(), |i: int| v[i]@)
}

/// The hidden partitions that a partition listing shows, by name.
pub fn list_hidden_partitions(listing: &str) -> (names: Vec<String>)
    ensures
        string_views(names@) == hidden_partition_names(lines(listing@)),
{
    let ls = split_lines(&chars_of(listing));
    let label = chars_of("ENCRYPTED");
    let letter = chars_of("Letter");
    let mut names: Vec<String> = Vec::new();
    let mut i: usize = 0;
    assert(views(ls@).take(0) =~= Seq::<Seq<char>>::empty());
    assert(string_views(names@) =~= Seq::<Seq<char>>::empty());
    while i < ls.len()
        invariant
            i <= ls.len(),
            label@ == "ENCRYPTED"@,
            letter@ == "Letter"@,
            string_views(names@) == hidden_partition_names(views(ls@).take(i as int)),
        decreases ls.len() - i,
    {
        proof {
            assert(views(ls@).take(i + 1).drop_last() =~= views(ls@).take(i as int));
            assert(views(ls@).take(i + 1).last() == ls@[i as int]@);
        }
        if contains_chars(&ls[i], &label) && !contains_chars(&ls[i], &letter) {
            match first_number_chars(&ls[i]) {
                Some(n) => {
                    let mut name: Vec<char> = Vec::new();
                    push_str(&mut name, "Partition ");
                    push_all(&mut name, &decimal_of(n as u64));
                    let ghost before = string_views(names@);
                    names.push(string_of(&name));
                    assert(string_views(names@) =~= before.push(partition_name(n)));
                },
                None => {},
            }
        }
        i += 1;
    }
    assert(views(ls@).take(ls.len() as int) =~= views(ls@));
    names
}

// ---------------------------------------------------------------------------
// Removable drives
// ---------------------------------------------------------------------------

/// A drive name of a removable drive: one ASCII character and a colon, and
/// not the system drive `C:`.
pub open spec fn is_usb_drive_name(t: Seq<char>) -> bool {
    t.len() == 2 && t[0] < '\u{80}' && t[1] == ':' && t != "C:"@
}

/// The drive that a line of a drive listing names, if it names one: the
/// line is no header and no separator line, and its first token is a drive
/// name of a removable drive.
pub open spec fn usb_drive_of(line: Seq<char>) -> Option<Seq<char>> {
    let toks = tokens(line);
    if contains(line, "DeviceID"@) || contains(line, "----"@) || toks.len() == 0 {
        None
    } else if is_usb_drive_name(toks[0]) {
        Some(toks[0])
    } else {
        None
    }
}

/// The first drive that the lines `ls` name.
pub open spec fn first_usb_drive(ls: Seq<Seq<char>>) -> Option<Seq<char>>
    decreases ls.len(),
{
    if ls.len() == 0 {
        None
    } else {
        match first_usb_drive(ls.drop_last()) {
            Some(d) => Some(d),
            None => usb_drive_of(ls.last()),
        }
    }
}

proof fn lemma_first_usb_drive_extends(ls: Seq<Seq<char>>, k: int)
    requires
        0 <= k <= ls.len(),
        first_usb_drive(ls.take(k)) is Some,
    ensures
        first_usb_drive(ls) == first_usb_drive(ls.take(k)),
    decreases ls.len() - k,
{
    if k == ls.len() {
        assert(ls.take(k) =~= ls);
    } else {
        assert(ls.take(k + 1).drop_last() =~= ls.take(k));
        lemma_first_usb_drive_extends(ls, k + 1);
    }
}

fn usb_drive_chars(line: &Vec<char>) -> (r: Option<Vec<char>>)
    ensures
        match usb_drive_of(line@) {
            Some(d) => r is Some && r->0@ == d,
            None => r is None,
        },
{
    if contains_chars(line, &chars_of("DeviceID")) || contains_chars(line, &chars_of("----")) {
        return None;
    }
    let toks = split_tokens(line);
    if toks.len() == 0 {
        return None;
    }
    assert(views(toks@)[0] == toks@[0]@);
    let t = &toks[0];
    if t.len() == 2 && t[0] < '\u{80}' && t[1] == ':' && !same_chars(t, &chars_of("C:")) {
        let mut name: Vec<char> = Vec::new();
        name.push(t[0]);
        name.push(t[1]);
        assert(name@ =~= t@);
        Some(name)
    } else {
        None
    }
}

/// The removable drive that a drive listing names first, such as `E:`.
pub fn find_usb_drive(listing: &str) -> (r: Option<String>)
    ensures
        match first_usb_drive(lines(listing@)) {
            Some(d) => r is Some && r->0@ == d,
            None => r is None,
        },
{
    let ls = split_lines(&chars_of(listing));
    let ghost all = views(ls@);
    let mut i: usize = 0;
    assert(all.take(0) =~= Seq::<Seq<char>>::empty());
    while i < ls.len()
        invariant
            i <= ls.len(),
            all == views(ls@),
            all == lines(listing@),
            first_usb_drive(all.take(i as int)) is None,
        decreases ls.len() - i,
    {
        proof {
            assert(all.take(i + 1).drop_last() =~= all.take(i as int));
            assert(all.take(i + 1).last() == ls@[i as int]@);
        }
        match usb_drive_chars(&ls[i]) {
            Some(name) => {
                proof {
                    lemma_first_usb_drive_extends(all, i + 1);
                }
                return Some(string_of(&name));
            },
            None => {},
        }
        i += 1;
    }
    assert(all.take(ls.len() as int) =~= all);
    None
}

// ---------------------------------------------------------------------------
// Drive letters
// ---------------------------------------------------------------------------

/// The letter of the drive at `path`: its first character, or `E` for an
/// empty path.
pub open spec fn drive_letter(path: Seq<char>) -> char {
    if path.len() > 0 {
        path[0]
    } else {
        'E'
    }
}

/// The low eight bits of a character's code.
pub open spec fn low_byte(c: char) -> nat {
    (c as nat) % 256
}

/// The letter after the drive letter of `path`: the character whose code
/// is one more than the low byte of the drive letter's code, where that is
/// at most `Z`, and `F` beyond that.
pub open spec fn next_letter(path: Seq<char>) -> char {
    let next = low_byte(drive_letter(path)) + 1;
    if next <= 90 {
        next as char
    } else {
        'F'
    }
}

/// The drive letter of `path`.
pub fn first_letter(path: &str) -> (c: char)
    ensures
        c == drive_letter(path@),
{
    let chars = chars_of(path);
    if chars.len() > 0 {
        chars[0]
    } else {
        'E'
    }
}

/// The next drive letter after that of `current_path`.
pub fn get_next_drive_letter(current_path: &str) -> (c: char)
    requires
        low_byte(drive_letter(current_path@)) != 255,
    ensures
        c == next_letter(current_path@),
{
    let current = first_letter(current_path);
    let next: u32 = (current as u32) % 256 + 1;
    if next <= 90 {
        (next as u8) as char
    } else {
        'F'
    }
}

// ---------------------------------------------------------------------------
// The partitioning script
// ---------------------------------------------------------------------------

/// The number of bytes in a MiB.
pub const MIB: u64 = 1048576;

/// The largest size, in MiB, of a partition that is formatted with FAT32.
pub const FAT32_LIMIT_MIB: u64 = 32768;

/// The file system of a public partition of `public_size` bytes: FAT32 up
/// to 32 GiB, NTFS beyond.
pub open spec fn public_filesystem(public_size: u64) -> Seq<char> {
    if public_size / MIB > FAT32_LIMIT_MIB {
        "ntfs"@
    } else {
        "fat32"@
    }
}

/// The script that parts disk `disk_number` into a public partition of
/// `public_size` bytes with the label `public_label`, mounted under the
/// drive letter of `device_path`, and an encrypted partition on the rest,
/// mounted under the next letter.
pub open spec fn partition_script_text(
    disk_number: u32,
    public_size: u64,
    public_label: Seq<char>,
    device_path: Seq<char>,
) -> Seq<char> {
    "select disk "@ + digits_of(disk_number as nat) + "\nclean\ncreate partition primary size="@
        + digits_of((public_size / MIB) as nat) + "\nactive\nformat fs="@ + public_filesystem(
        public_size,
    ) + " quick label=\""@ + public_label + "\"\nassign letter="@ + seq![
        drive_letter(device_path),
    ] + "\ncreate partition primary\nformat fs=ntfs quick label=\"ENCRYPTED\"\nassign letter="@
        + seq![next_letter(device_path)] + "\nlist partition\n"@
}

/// The name of the file system of a public partition of `public_size`
/// bytes.
pub fn choose_public_filesystem(public_size: u64) -> (name: String)
    ensures
        name@ == public_filesystem(public_size),
{
    if public_size / MIB > FAT32_LIMIT_MIB {
        "ntfs".to_owned()
    } else {
        "fat32".to_owned()
    }
}

/// The partitioning script for disk `disk_number`.
pub fn partition_script(disk_number: u32, public_size: u64, public_label: &str, device_path: &str) -> (s: String)
    requires
        low_byte(drive_letter(device_path@)) != 255,
    ensures
        s@ == partition_script_text(disk_number, public_size, public_label@, device_path@),
{
    let mut out: Vec<char> = Vec::new();
    push_str(&mut out, "select disk ");
    push_all(&mut out, &decimal_of(disk_number as u64));
    push_str(&mut out, "\nclean\ncreate partition primary size=");
    push_all(&mut out, &decimal_of(public_size / MIB));
    push_str(&mut out, "\nactive\nformat fs=");
    push_str(&mut out, choose_public_filesystem(public_size).as_str());
    push_str(&mut out, " quick label=\"");
    push_str(&mut out, public_label);
    push_str(&mut out, "\"\nassign letter=");
    out.push(first_letter(device_path));
    push_str(
        &mut out,
        "\ncreate partition primary\nformat fs=ntfs quick label=\"ENCRYPTED\"\nassign letter=",
    );
    out.push(get_next_drive_letter(device_path));
    push_str(&mut out, "\nlist partition\n");
    assert(out@ =~= partition_script_text(disk_number, public_size, public_label@, device_path@));
    string_of(&out)
}

} // verus!
