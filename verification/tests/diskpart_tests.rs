use deepvault_core::device::DeviceManager;
use deepvault_core::diskpart::{
    choose_public_filesystem, extract_disk_number, extract_partition_number, find_usb_drive, first_letter,
    get_next_drive_letter, list_hidden_partitions, partition_script,
};
use deepvault_core::listing::{is_size_token_chars, parse_partition_line, render_partition_line, PartitionRecord};
use sysinfo::{DiskExt, System, SystemExt};
use deepvault_core::mount::{MountManager, MountStatus};
use deepvault_core::partition::PartitionManager;
use std::path::PathBuf;

#[test]
fn numbers_in_lines() {
    assert_eq!(extract_partition_number("  Partition 2    Primary   7 GB  50 GB"), Some(2));
    assert_eq!(extract_partition_number("no number here"), None);
    assert_eq!(extract_partition_number(""), None);
    assert_eq!(extract_partition_number("x 4294967296 +7 3"), Some(7));
    assert_eq!(extract_disk_number("Disk 0    Online    465 GB    0 B"), Some(0));
    assert_eq!(extract_disk_number("Disk Disk 12"), Some(12));
    assert_eq!(extract_disk_number("Disk"), None);
}

#[test]
fn hidden_partitions_by_name() {
    let text = "\
  Partition ###  Type  Size  Offset  Label\n\
  Partition 1    Primary   50 GB  1024 KB PUBLIC\n\
  Partition 2    Primary   7 GB  50 GB ENCRYPTED\n\
  Partition 3    Primary   7 GB  57 GB ENCRYPTED Letter\n\
  ENCRYPTED\n\
  Partition 10   Primary   1 GB  64 GB ENCRYPTED\n";
    assert_eq!(list_hidden_partitions(text), vec!["Partition 2", "Partition 10"]);
    assert!(list_hidden_partitions("").is_empty());
}

#[test]
fn first_removable_drive() {
    assert_eq!(find_usb_drive("DeviceID VolumeName\n-------- ----------\nC:  System\nE:  STICK\nF:  OTHER\n"), Some("E:".to_string()));
    assert_eq!(find_usb_drive("  \n\nC:\n"), None);
    assert_eq!(find_usb_drive("E: ----\nG:\n"), Some("G:".to_string()));
    assert_eq!(find_usb_drive("E: DeviceID\n"), None);
    assert_eq!(find_usb_drive("EE:\n:E\né:\nc:\n"), Some("c:".to_string()));
    assert_eq!(find_usb_drive(""), None);
}

#[test]
fn next_drive_letters() {
    assert_eq!(get_next_drive_letter("E:"), 'F');
    assert_eq!(get_next_drive_letter("Y:"), 'Z');
    assert_eq!(get_next_drive_letter("Z:"), 'F');
    assert_eq!(get_next_drive_letter(""), 'F');
    assert_eq!(get_next_drive_letter("a"), 'F');
    assert_eq!(get_next_drive_letter("1"), '2');
    // only the low byte of the character's code counts
    assert_eq!(get_next_drive_letter("\u{141}"), 'B');
    assert_eq!(first_letter(""), 'E');
    assert_eq!(first_letter("G:\\"), 'G');
}

#[test]
fn partitioning_script() {
    assert_eq!(choose_public_filesystem(32768 * 1048576), "fat32");
    assert_eq!(choose_public_filesystem(32769 * 1048576 - 1), "fat32");
    assert_eq!(choose_public_filesystem(32769 * 1048576), "ntfs");
    assert_eq!(
        partition_script(1, 8 * 1024 * 1048576 + 5, "PUBLIC", "E:"),
        "select disk 1\n\
         clean\n\
         create partition primary size=8192\n\
         active\n\
         format fs=fat32 quick label=\"PUBLIC\"\n\
         assign letter=E\n\
         create partition primary\n\
         format fs=ntfs quick label=\"ENCRYPTED\"\n\
         assign letter=F\n\
         list partition\n"
    );
    assert!(partition_script(0, u64::MAX, "", "").contains("size=17592186044415\nactive\nformat fs=ntfs quick label=\"\"\nassign letter=E\n"));
}

#[test]
fn a_record_written_down_reads_back() {
    for designator in [None, Some('D'), Some('z')] {
        for offset in [0u64, 7, 1048576, 53687091200, u64::MAX] {
            for size in ["50GB", "7.3", "GB", "~1.5TB", "0", "12KB"] {
                for kind in ["Basic", "X", "12", "IFS", "Z", "é"] {
                    let rec = PartitionRecord {
                        disk_index: 3,
                        partition_number: 42,
                        mount_designator: designator,
                        offset: Some(offset),
                        size_descriptor: Some(size.to_string()),
                        kind_descriptor: Some(kind.to_string()),
                    };
                    let line = render_partition_line(&rec);
                    assert_eq!(parse_partition_line(&line, 3).unwrap(), rec, "{line}");
                }
            }
        }
    }
    let rec = PartitionRecord {
        disk_index: 0,
        partition_number: 2,
        mount_designator: None,
        offset: Some(53687091200),
        size_descriptor: Some("7.3GB".to_string()),
        kind_descriptor: Some("Basic".to_string()),
    };
    assert_eq!(render_partition_line(&rec), "2 53687091200 7.3GB Basic");
    let bare = PartitionRecord { offset: None, size_descriptor: None, kind_descriptor: None, ..rec };
    assert_eq!(render_partition_line(&bare), "2");
}

#[test]
fn managers_keep_their_device() {
    let path = PathBuf::from("/dev/sdb");
    let mounts = MountManager::new(path.clone());
    assert_eq!(mounts.device_path(), &path);
    assert!(matches!(mounts.get_mount_status("vault"), Ok(MountStatus::Unmounted)));
    let partitions = PartitionManager::new(path.clone());
    assert_eq!(partitions.device_path(), &path);
    assert!(partitions.create_partition_structure(vec![]).is_ok());
    let info = partitions.get_partition_info(&PathBuf::from("/dev/sdb1")).unwrap();
    assert_eq!(info.name, "sdb1");
    assert_eq!(info.path, PathBuf::from("/dev/sdb1"));
    assert_eq!(info.size, 0);
    assert_eq!(info.filesystem, None);
    assert!(!info.is_mounted);
    assert_eq!(info.mount_point, None);
    assert_eq!(info.partition_type, "public");
    assert_eq!(info.device_path, "/dev/sdb1");
    assert_eq!(partitions.get_partition_info(&PathBuf::from("/")).unwrap().name, "");
}

#[test]
fn test_device_detection() {
    let mut device_manager = DeviceManager::new();
    device_manager.refresh();

    let devices = device_manager.get_usb_devices().unwrap();
    println!("Détecté {} périphériques USB", devices.len());
    for device in &devices {
        assert!(device.is_removable);
        assert_eq!(device.partitions.len(), 1);
        assert_eq!(device.partitions[0].size, device.size);
        assert_eq!(device.partitions[0].partition_type, "public");
    }
    assert!(device_manager
        .get_device_by_path(&PathBuf::from("/no/such/mount/point"))
        .unwrap()
        .is_none());
}

#[test]
fn what_counts_as_a_size() {
    let size = |s: &str| is_size_token_chars(&s.chars().collect());
    for yes in ["50", "7.3", ".5", "5.", "50GB", "GB", "x50GBy", "1KB", "MB", "TB", "0"] {
        assert!(size(yes), "{yes}");
    }
    for no in ["", ".", "1.2.3", "B", "50B", "Basic", "gb", "5e3", "-5", "+5", "G B", "1,5"] {
        assert!(!size(no), "{no}");
    }
    let rec = parse_partition_line("2 1048576 B 50GB Basic", 0).unwrap();
    assert_eq!(rec.size_descriptor.as_deref(), Some("50GB"));
    assert_eq!(rec.kind_descriptor.as_deref(), Some("Basic"));
}

#[test]
fn the_device_at_a_mount_point_is_the_disk_that_the_system_reports() {
    let mut system = System::new_all();
    system.refresh_disks();
    let manager = DeviceManager::new();
    if let Some(disk) = system.disks().first() {
        let path = disk.mount_point().to_path_buf();
        let device = manager.get_device_by_path(&path).unwrap().unwrap();
        assert_eq!(device.device_path, path);
        assert_eq!(device.name, disk.name().to_string_lossy());
        assert_eq!(device.is_removable, disk.is_removable());
        assert_eq!(device.is_mounted, !path.as_os_str().is_empty());
        assert_eq!(device.partitions.len(), 1);
        assert_eq!(device.partitions[0].filesystem.as_deref(), Some("Unknown"));
        assert_eq!(device.partitions[0].device_path, device.name);
        assert_eq!(device.partitions[0].mount_point.is_some(), device.is_mounted);
    }
    let removable = system.disks().iter().filter(|d| d.is_removable()).count();
    assert_eq!(manager.get_usb_devices().unwrap().len(), removable);
}

#[test]
fn refresh_keeps_the_disks() {
    let mut manager = DeviceManager::new();
    let mut system = System::new_all();
    system.refresh_disks();
    let paths: Vec<PathBuf> = system.disks().iter().map(|d| d.mount_point().to_path_buf()).collect();
    let before: Vec<_> = paths.iter().map(|p| manager.get_device_by_path(p).unwrap()).collect();
    let usb_before = manager.get_usb_devices().unwrap();
    manager.refresh();
    let after: Vec<_> = paths.iter().map(|p| manager.get_device_by_path(p).unwrap()).collect();
    let usb_after = manager.get_usb_devices().unwrap();
    assert_eq!(before.len(), after.len());
    for (b, a) in before.iter().zip(after.iter()) {
        assert_eq!(b.is_some(), a.is_some());
        if let (Some(b), Some(a)) = (b, a) {
            assert_eq!(b.name, a.name);
            assert_eq!(b.device_path, a.device_path);
            assert_eq!(b.is_removable, a.is_removable);
            assert_eq!(b.is_mounted, a.is_mounted);
        }
    }
    assert_eq!(usb_before.len(), usb_after.len());
    for (b, a) in usb_before.iter().zip(usb_after.iter()) {
        assert_eq!(b.name, a.name);
        assert_eq!(b.device_path, a.device_path);
    }
}
