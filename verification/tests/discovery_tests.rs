use deepvault_core::discovery::{choose_disk, choose_partition, discover, select_disk, select_partition};
use deepvault_core::error::VaultError;
use deepvault_core::listing::{
    parse_disk_line, parse_disk_listing, parse_line, parse_partition_line, parse_partition_listing,
    DiskRecord, ListingRecord, ListingSchema, PartitionRecord,
};

const DISKS: &str = "\
Number FriendlyName             OperationalStatus Size\n\
------ ------------             ----------------- ----\n\
0      Samsung SSD 970 EVO      Online            500107862016\n\
1      SanDisk Ultra USB Device Online            61505273856\n";

const PARTITIONS: &str = "\
PartitionNumber DriveLetter Offset      Size Type\n\
--------------- ----------- ------      ---- ----\n\
1               D           1048576     50GB Basic\n\
2                           53687091200 7.3GB Basic\n";

#[test]
fn discovery_finds_the_concealed_partition_of_the_removable_disk() {
    assert!(matches!(discover(DISKS, PARTITIONS), Ok((1, 2))));
    assert!(matches!(choose_disk(DISKS), Ok(1)));
    assert!(matches!(choose_partition(PARTITIONS, 1), Ok(2)));
}

#[test]
fn discovery_gives_the_same_answer_every_time() {
    let first = discover(DISKS, PARTITIONS).unwrap();
    for _ in 0..5 {
        assert_eq!(discover(DISKS, PARTITIONS).unwrap(), first);
    }
}

#[test]
fn partition_line_without_designator_has_offset() {
    let rec = parse_partition_line("2                           53687091200 7.3GB Basic", 1).unwrap();
    assert_eq!(
        rec,
        PartitionRecord {
            disk_index: 1,
            partition_number: 2,
            mount_designator: None,
            offset: Some(53687091200),
            size_descriptor: Some("7.3GB".to_string()),
            kind_descriptor: Some("Basic".to_string()),
        }
    );
}

#[test]
fn partition_line_with_designator() {
    let rec = parse_partition_line("1  D  1048576  50 GB Basic", 7).unwrap();
    assert_eq!(rec.disk_index, 7);
    assert_eq!(rec.partition_number, 1);
    assert_eq!(rec.mount_designator, Some('D'));
    assert_eq!(rec.offset, Some(1048576));
    assert_eq!(rec.size_descriptor.as_deref(), Some("50"));
    assert_eq!(rec.kind_descriptor.as_deref(), Some("Basic"));
}

#[test]
fn header_separator_blank_and_short_lines_hold_no_record() {
    for line in [
        "PartitionNumber DriveLetter Offset Size Type",
        "--------------- ----------- ------ ---- ----",
        "",
        "   \t  ",
        "2 1048576 50GB",
        "x 1048576 50GB Basic",
        "1 PartitionNumber 5 6 7",
    ] {
        assert!(matches!(parse_partition_line(line, 0), Err(VaultError::ParseAmbiguous)), "{line:?}");
    }
    assert!(matches!(parse_disk_line("Number FriendlyName OperationalStatus Size"), Err(VaultError::ParseAmbiguous)));
    assert!(matches!(parse_disk_line("0 Online 5"), Err(VaultError::ParseAmbiguous)));
}

#[test]
fn index_may_carry_a_plus_sign_and_must_fit_32_bits() {
    assert_eq!(parse_partition_line("+3 1 2 3", 0).unwrap().partition_number, 3);
    assert_eq!(parse_partition_line("4294967295 1 2 3", 0).unwrap().partition_number, u32::MAX);
    assert!(parse_partition_line("4294967296 1 2 3", 0).is_err());
    assert!(parse_partition_line("-3 1 2 3", 0).is_err());
    assert!(parse_partition_line("+ 1 2 3", 0).is_err());
}

#[test]
fn columns_are_claimed_once_and_in_order() {
    // a letter after the offset is no designator any more
    let rec = parse_partition_line("2 1048576 50GB X", 0).unwrap();
    assert_eq!(rec.mount_designator, None);
    assert_eq!(rec.kind_descriptor.as_deref(), Some("X"));
    // a second letter, a second number and a second size are left over
    let rec = parse_partition_line("2 D E 10 20 GB 30GB Basic", 0).unwrap();
    assert_eq!(rec.mount_designator, Some('D'));
    assert_eq!(rec.offset, Some(10));
    assert_eq!(rec.size_descriptor.as_deref(), Some("20"));
    assert_eq!(rec.kind_descriptor.as_deref(), Some("Basic"));
    // an offset that does not fit 64 bits is no offset
    let rec = parse_partition_line("2 18446744073709551616 GB Basic", 0).unwrap();
    assert_eq!(rec.offset, None);
    assert_eq!(rec.size_descriptor.as_deref(), Some("18446744073709551616"));
    let rec = parse_partition_line("2 18446744073709551615 GB Basic", 0).unwrap();
    assert_eq!(rec.offset, Some(u64::MAX));
    assert_eq!(rec.size_descriptor.as_deref(), Some("GB"));
}

#[test]
fn disk_line_flags() {
    assert_eq!(
        parse_disk_line("1      SanDisk Ultra USB Device Online            61505273856").unwrap(),
        DiskRecord { index: 1, online: true, removable_hint: true }
    );
    assert_eq!(
        parse_disk_line("0 Samsung SSD Offline 500107862016").unwrap(),
        DiskRecord { index: 0, online: false, removable_hint: false }
    );
    assert_eq!(
        parse_disk_line("3 Generic Removable Online 1").unwrap(),
        DiskRecord { index: 3, online: true, removable_hint: true }
    );
}

#[test]
fn first_line_of_a_partition_number_wins() {
    let text = "2 D 1048576 50GB Basic\n2 1048576 50GB Basic\n3 2097152 1GB Basic\n";
    let recs = parse_partition_listing(text, 1);
    assert_eq!(recs.len(), 2);
    assert_eq!(recs[0].partition_number, 2);
    assert_eq!(recs[0].mount_designator, Some('D'));
    assert_eq!(recs[1].partition_number, 3);
    assert!(matches!(choose_partition(text, 1), Ok(3)));
}

#[test]
fn disk_choice_rules() {
    let d = |index, online, removable_hint| DiskRecord { index, online, removable_hint };
    assert_eq!(select_disk(&vec![]), None);
    assert_eq!(select_disk(&vec![d(0, false, true)]), None);
    // first removable wins
    assert_eq!(select_disk(&vec![d(0, true, false), d(2, true, true), d(5, true, true)]).unwrap().index, 2);
    // none removable: the highest number
    assert_eq!(select_disk(&vec![d(3, true, false), d(7, true, false), d(5, true, false)]).unwrap().index, 7);
    // offline disks do not count
    assert_eq!(select_disk(&vec![d(9, false, true), d(1, true, false)]).unwrap().index, 1);
}

#[test]
fn discovery_errors() {
    assert!(matches!(discover("", PARTITIONS), Err(VaultError::NoOnlineDisk)));
    assert!(matches!(
        discover("0 Samsung SSD Offline 500107862016\n", PARTITIONS),
        Err(VaultError::NoOnlineDisk)
    ));
    assert!(matches!(
        discover(DISKS, "1 D 1048576 50GB Basic\n"),
        Err(VaultError::NoConcealedPartition)
    ));
    assert_eq!(select_partition(&vec![]), None);
    assert_eq!(parse_disk_listing(DISKS).len(), 2);
}

#[test]
fn one_line_under_a_schema() {
    let line = "1 SanDisk Online 61505273856";
    assert_eq!(
        parse_line(line, ListingSchema::Disks).unwrap(),
        ListingRecord::Disk(DiskRecord { index: 1, online: true, removable_hint: true })
    );
    match parse_line(line, ListingSchema::Partitions { disk_index: 4 }).unwrap() {
        ListingRecord::Partition(p) => {
            assert_eq!(p.disk_index, 4);
            assert_eq!(p.partition_number, 1);
            assert_eq!(p.mount_designator, None);
            assert_eq!(p.offset, Some(61505273856));
            assert_eq!(p.size_descriptor, None);
            assert_eq!(p.kind_descriptor.as_deref(), Some("Online"));
        }
        other => panic!("{other:?}"),
    }
    assert!(matches!(parse_line("", ListingSchema::Disks), Err(VaultError::ParseAmbiguous)));
    assert!(matches!(
        parse_line("1 Number 2 3", ListingSchema::Disks),
        Err(VaultError::ParseAmbiguous)
    ));
    assert!(parse_line("1 Number 2 3", ListingSchema::Partitions { disk_index: 0 }).is_ok());
}
