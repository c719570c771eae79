use deepvault_core::device::usb_devices_from_listing;
use deepvault_core::files::{comes_before, precedes, FileInfo};
use deepvault_core::mount::{MountManager, MountStatus, MOUNT_LETTER};
use deepvault_core::partition::PartitionManager;
use deepvault_core::paths::Platform;
use deepvault_core::text::{
    chars_of, contains_chars, decimal_of, is_space_char, parse_decimal_chars, parse_unsigned_chars,
    split_lines, split_on, split_tokens, string_of, trim_chars,
};
use deepvault_core::wipe::{WipeManager, WipePattern};
use std::path::PathBuf;

fn c(s: &str) -> Vec<char> {
    s.chars().collect()
}

fn file(name: &str, is_directory: bool) -> FileInfo {
    FileInfo { name: name.to_string(), path: format!("/x/{name}"), is_directory, size: 0, modified: 0 }
}

#[test]
fn tokens_lines_and_fields() {
    let toks = |s: &str| -> Vec<String> { split_tokens(&c(s)).iter().map(string_of).collect() };
    assert_eq!(toks("  a  bc\td\r\n"), vec!["a", "bc", "d"]);
    assert_eq!(toks("x\u{a0}y\u{3000}z\u{2003}w\u{85}v"), vec!["x", "y", "z", "w", "v"]);
    assert!(toks("").is_empty());
    assert!(toks(" \t ").is_empty());
    for text in ["  a  bc\td\r\n", "x\u{a0}y\u{3000}z", "\u{1680}q\u{2028}r\u{2029}s\u{202f}t\u{205f}u", "a\u{200b}b"] {
        let expected: Vec<String> = text.split_whitespace().map(|t| t.to_string()).collect();
        assert_eq!(toks(text), expected);
    }
    for code in 0..0x3100u32 {
        if let Some(ch) = char::from_u32(code) {
            assert_eq!(is_space_char(ch), ch.is_whitespace(), "{code:x}");
        }
    }
    let lines = |s: &str| -> Vec<String> { split_lines(&c(s)).iter().map(string_of).collect() };
    assert_eq!(lines(""), vec![""]);
    assert_eq!(lines("a\nb"), vec!["a", "b"]);
    assert_eq!(lines("a\r\n\nb\n"), vec!["a\r", "", "b", ""]);
    let fields = |s: &str| -> Vec<String> { split_on(&c(s), ',').iter().map(string_of).collect() };
    assert_eq!(fields("a,,b,"), vec!["a", "", "b", ""]);
    assert_eq!(string_of(&trim_chars(&c("  a b \t\r\n"))), "a b");
    assert_eq!(string_of(&trim_chars(&c(" \t "))), "");
    assert_eq!(string_of(&trim_chars(&c(""))), "");
    assert_eq!(chars_of("héllo"), c("héllo"));
    assert!(contains_chars(&c("abcabd"), &c("abd")));
    assert!(contains_chars(&c("abc"), &c("")));
    assert!(!contains_chars(&c("abc"), &c("abcd")));
    assert!(!contains_chars(&c(""), &c("a")));
}

#[test]
fn decimal_numbers() {
    for n in [0u64, 9, 10, 99, 100, 12345, u32::MAX as u64, u64::MAX] {
        assert_eq!(string_of(&decimal_of(n)), n.to_string());
        assert_eq!(parse_decimal_chars(&decimal_of(n), u64::MAX), Some(n));
    }
    assert_eq!(parse_decimal_chars(&c("007"), 10), Some(7));
    assert_eq!(parse_decimal_chars(&c("11"), 10), None);
    assert_eq!(parse_decimal_chars(&c("10"), 10), Some(10));
    assert_eq!(parse_decimal_chars(&c(""), 10), None);
    assert_eq!(parse_decimal_chars(&c("+1"), 10), None);
    assert_eq!(parse_decimal_chars(&c("1a"), 10), None);
    assert_eq!(parse_decimal_chars(&c("١"), 10), None);
    assert_eq!(parse_decimal_chars(&c("18446744073709551616"), u64::MAX), None);
    assert_eq!(parse_decimal_chars(&c("99999999999999999999999"), u64::MAX), None);
    assert_eq!(parse_decimal_chars(&c("0"), 0), Some(0));
    assert_eq!(parse_decimal_chars(&c("1"), 0), None);
    assert_eq!(parse_unsigned_chars(&c("+18446744073709551615"), u64::MAX), Some(u64::MAX));
    assert_eq!(parse_unsigned_chars(&c("++1"), u64::MAX), None);
    assert_eq!(parse_unsigned_chars(&c("+"), u64::MAX), None);
    for text in ["0", "+0", "-0", "12", " 12", "12 ", "+-1", "4294967295", "4294967296", "", "+"] {
        let chars = c(text);
        assert_eq!(parse_unsigned_chars(&chars, u32::MAX as u64), text.parse::<u32>().ok().map(u64::from), "{text}");
        assert_eq!(parse_unsigned_chars(&chars, u64::MAX), text.parse::<u64>().ok(), "{text}");
    }
}

#[test]
fn directory_listing_order() {
    assert!(comes_before(&c(""), &c("a")));
    assert!(!comes_before(&c("a"), &c("")));
    assert!(!comes_before(&c("a"), &c("a")));
    assert!(comes_before(&c("a"), &c("ab")));
    assert!(comes_before(&c("ab"), &c("b")));
    assert!(comes_before(&c("z"), &c("é")));
    assert!(precedes(&file("zeta", true), &file("alpha", false)));
    assert!(!precedes(&file("alpha", false), &file("zeta", true)));
    assert!(precedes(&file("Alpha", false), &file("beta", false)));
    assert!(precedes(&file("alpha", true), &file("Beta", true)));
    assert!(!precedes(&file("same", false), &file("SAME", false)));
    assert!(!precedes(&file("SAME", false), &file("same", false)));

    let mut files = vec![file("b.txt", false), file("Docs", true), file("a.txt", false), file("archive", true), file("B.txt", false)];
    let expected = {
        let mut v = files.clone();
        v.sort_by(|a, b| match (a.is_directory, b.is_directory) {
            (true, false) => std::cmp::Ordering::Less,
            (false, true) => std::cmp::Ordering::Greater,
            _ => a.name.to_lowercase().cmp(&b.name.to_lowercase()),
        });
        v
    };
    files.sort_by(|a, b| {
        if precedes(a, b) {
            std::cmp::Ordering::Less
        } else if precedes(b, a) {
            std::cmp::Ordering::Greater
        } else {
            std::cmp::Ordering::Equal
        }
    });
    assert_eq!(files, expected);
    assert_eq!(files.iter().map(|f| f.name.as_str()).collect::<Vec<_>>(), vec!["archive", "Docs", "a.txt", "b.txt", "B.txt"]);
}

#[test]
fn mount_texts() {
    assert_eq!(MOUNT_LETTER, 'Z');
    assert_eq!(MountManager::mount_point_for("vault"), "/mnt/vault");
    assert_eq!(MountManager::mapper_device_for("vault"), "/dev/mapper/vault");
    assert_eq!(
        MountManager::step_failed("Failed to open LUKS volume", "no key"),
        MountStatus::Error("Failed to open LUKS volume: no key".to_string())
    );
    assert_eq!(MountManager::mounted_at("/mnt/vault"), MountStatus::Mounted(PathBuf::from("/mnt/vault")));
}

#[test]
fn wipe_texts() {
    assert_eq!(WipeManager::header_file_names(), vec![".dv_meta", ".deepvault_meta", "header.bin"]);
    assert_eq!(WipeManager::source_for(WipePattern::Random).as_deref(), Some("/dev/urandom"));
    assert_eq!(WipeManager::source_for(WipePattern::Zeros).as_deref(), Some("/dev/zero"));
    assert_eq!(WipeManager::source_for(WipePattern::Ones), None);
    assert_eq!(WipeManager::source_for(WipePattern::DoD5220_22M), None);
    assert_eq!(WipeManager::pass_failed(0, "denied"), "Wipe pass 1 failed: denied");
    assert_eq!(WipeManager::pass_failed(u32::MAX, ""), "Wipe pass 4294967296 failed: ");
}

#[test]
fn format_arguments_by_platform() {
    assert_eq!(PartitionManager::format_arguments(Platform::Linux, "ext4", "DATA"), vec!["-t ext4", "-L DATA"]);
    assert_eq!(PartitionManager::format_arguments(Platform::Windows, "NTFS", "DATA"), vec!["/FS:NTFS", "/V:DATA", "/Q"]);
    assert_eq!(PartitionManager::format_arguments(Platform::MacOs, "APFS", "DATA"), vec!["eraseDisk", "APFS", "DATA"]);
    assert!(PartitionManager::format_arguments(Platform::Other, "x", "y").is_empty());
}

#[test]
fn logical_disk_listing() {
    let text = "\
Node,DeviceID,Size,VolumeName,FreeSpace\r\n\
\r\n\
PC,E:,61505273856, STICK ,1000\r\n\
PC,F:,0,EMPTY,0\r\n\
PC,G:,abc,BAD,0\r\n\
PC,H:,+5,,0\r\n\
PC,I:,5,SHORT\r\n";
    let devices = usb_devices_from_listing(text);
    assert_eq!(devices.len(), 2);
    let e = &devices[0];
    assert_eq!(e.name, "STICK");
    assert_eq!(e.device_path, PathBuf::from("E:"));
    assert_eq!(e.size, 61505273856);
    assert!(e.is_mounted && e.is_removable);
    assert_eq!(e.partitions.len(), 1);
    let p = &e.partitions[0];
    assert_eq!(p.name, "E:_partition");
    assert_eq!(p.path, PathBuf::from("E:"));
    assert_eq!(p.size, 0);
    assert_eq!(p.filesystem.as_deref(), Some("FAT32"));
    assert!(p.is_mounted);
    assert_eq!(p.mount_point, Some(PathBuf::from("E:")));
    assert_eq!(p.partition_type, "public");
    assert_eq!(p.device_path, "E:");
    assert_eq!(devices[1].name, "USB Drive H:");
    assert_eq!(devices[1].size, 5);
    // the first line is passed over even where it names a drive
    assert!(usb_devices_from_listing("PC,E:,5,X,0").is_empty());
    assert!(usb_devices_from_listing("").is_empty());
}
