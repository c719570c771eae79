//! USB devices and their partitions.
//!
//! The disks come from the `sysinfo` crate. What the system reports of a
//! disk is taken over as a `DiskReport` of plain values; which disks are
//! USB devices, and what partitions they are given, is decided here.

use vstd::prelude::*;
use std::path::PathBuf;
use crate::error::DeepVaultError;
use crate::paths::path_from_text;
use crate::paths::path_of;
use crate::text::chars_of;
use crate::text::is_blank;
use crate::text::is_blank_chars;
use crate::text::lines;
use crate::text::parse_unsigned;
use crate::text::parse_unsigned_chars;
use crate::text::pieces;
use crate::text::push_all;
use crate::text::push_str;
use crate::text::split_lines;
use crate::text::split_on;
use crate::text::string_of;
use crate::text::trim_chars;
use crate::text::trimmed;
use crate::text::views;
use sysinfo::DiskExt;
use sysinfo::System;
use sysinfo::SystemExt;

verus! {

/// USB device information.
#[derive(Clone, Debug)]
pub struct UsbDevice {
    pub name: String,
    pub device_path: PathBuf,
    pub size: u64,
    pub partitions: Vec<PartitionInfo>,
    pub is_mounted: bool,
    pub is_removable: bool,
}

/// Partition information.
#[derive(Clone, Debug)]
pub struct PartitionInfo {
    pub name: String,
    pub path: PathBuf,
    pub size: u64,
    pub filesystem: Option<String>,
    pub is_mounted: bool,
    pub mount_point: Option<PathBuf>,
    /// "public" or "encrypted".
    pub partition_type: String,
    /// Physical device path (e.g. /dev/sdb1).
    pub device_path: String,
}

/// The mathematical value of a `PartitionInfo`.
pub struct PartitionInfoView {
    pub name: Seq<char>,
    pub path: PathBuf,
    pub size: u64,
    pub filesystem: Option<Seq<char>>,
    pub is_mounted: bool,
    pub mount_point: Option<PathBuf>,
    pub partition_type: Seq<char>,
    pub device_path: Seq<char>,
}

impl View for PartitionInfo {
    type V = PartitionInfoView;

    open spec fn view(&self) -> PartitionInfoView {
        PartitionInfoView {
            name: self.name@,
            path: self.path,
            size: self.size,
            filesystem: match self.filesystem {
                Some(f) => Some(f@),
                None => None,
            },
            is_mounted: self.is_mounted,
            mount_point: self.mount_point,
            partition_type: self.partition_type@,
            device_path: self.device_path@,
        }
    }
}

/// The mathematical value of a `UsbDevice`.
pub struct UsbDeviceView {
    pub name: Seq<char>,
    pub device_path: PathBuf,
    pub size: u64,
    pub partitions: Seq<PartitionInfoView>,
    pub is_mounted: bool,
    pub is_removable: bool,
}

impl View for UsbDevice {
    type V = UsbDeviceView;

    open spec fn view(&self) -> UsbDeviceView {
        UsbDeviceView {
            name: self.name@,
            device_path: self.device_path,
            size: self.size,
            partitions: Seq::new(self.partitions@.len(), |i: int| self.partitions@[i]@),
            is_mounted: self.is_mounted,
            is_removable: self.is_removable,
        }
    }
}

/// The views of a sequence of devices.
pub open spec fn device_views(v: Seq<UsbDevice>) -> Seq<UsbDeviceView> {
    Seq::new(v.len(), |i: int| v[i]@)
}

// ---------------------------------------------------------------------------
// What the system reports
// ---------------------------------------------------------------------------

/// `sysinfo::System`, as an opaque value.
#[verifier::external_type_specification]
#[verifier::external_body]
pub struct ExSystem(System);

/// What the system reports of one disk.
#[derive(Clone, Debug)]
pub struct DiskReport {
    pub name: String,
    pub mount_point: PathBuf,
    pub total_space: u64,
    pub is_removable: bool,
    /// The mount point is the empty path.
    pub mount_point_is_empty: bool,
}

/// The mathematical value of a `DiskReport`.
pub struct DiskReportView {
    pub name: Seq<char>,
    pub mount_point: PathBuf,
    pub total_space: u64,
    pub is_removable: bool,
    pub mount_point_is_empty: bool,
}

impl View for DiskReport {
    type V = DiskReportView;

    open spec fn view(&self) -> DiskReportView {
        DiskReportView {
            name: self.name@,
            mount_point: self.mount_point,
            total_space: self.total_space,
            is_removable: self.is_removable,
            mount_point_is_empty: self.mount_point_is_empty,
        }
    }
}

/// The views of a sequence of disk reports.
pub open spec fn report_views(v: Seq<DiskReport>) -> Seq<DiskReportView> {
    Seq::new(v.len(), |i: int| v[i]@)
}

/// The disks that a `System` holds, as it last listed them, in its order.
pub uninterp spec fn system_disks(system: System) -> Seq<DiskReportView>;

/// Whether two paths are equal as `PathBuf` compares them: component by
/// component.
pub uninterp spec fn same_path(a: PathBuf, b: PathBuf) -> bool;

/// `System::new_all`: a `System` with everything loaded. Nothing is claimed
/// of the disks that it holds.
#[verifier::external_body]
fn system_new_all() -> (system: System) {
    System::new_all()
}

/// The disks `after` are the disks `before` but for their sizes: as many,
/// in the same order, each with the name, the mount point and the removable
/// flag that it had.
pub open spec fn same_disks_but_for_size(
    before: Seq<DiskReportView>,
    after: Seq<DiskReportView>,
) -> bool {
    &&& after.len() == before.len()
    &&& forall|i: int|
        0 <= i < before.len() ==> (#[trigger] after[i]).name == before[i].name
            && after[i].mount_point == before[i].mount_point && after[i].is_removable
            == before[i].is_removable && after[i].mount_point_is_empty
            == before[i].mount_point_is_empty
}

/// `SystemExt::refresh_disks`: goes through the disks that the system
/// holds and has each read its space anew. The list itself is not made
/// anew: the disks stay the same, in the same order, with their names,
/// mount points and removable flags. Nothing is claimed of their sizes
/// afterwards.
#[verifier::external_body]
fn system_refresh_disks(system: &mut System)
    ensures
        same_disks_but_for_size(system_disks(*old(system)), system_disks(*final(system))),
{
    system.refresh_disks();
}

/// `SystemExt::disks`, with each disk taken over as plain values by
/// `DiskExt::name`, `mount_point`, `total_space` and `is_removable`: the
/// disks that the system holds, in its order.
#[verifier::external_body]
fn system_disk_reports(system: &System) -> (reports: Vec<DiskReport>)
    ensures
        report_views(reports@) == system_disks(*system),
{
    system.disks().iter().map(
        |d| DiskReport {
            name: d.name().to_string_lossy().to_string(),
            mount_point: d.mount_point().to_path_buf(),
            total_space: d.total_space(),
            is_removable: d.is_removable(),
            mount_point_is_empty: d.mount_point().as_os_str().is_empty(),
        },
    ).collect()
}

/// `PathBuf`'s `==`.
#[verifier::external_body]
fn paths_equal(a: &PathBuf, b: &PathBuf) -> (r: bool)
    ensures
        r == same_path(*a, *b),
{
    a == b
}

// ---------------------------------------------------------------------------
// Devices
// ---------------------------------------------------------------------------

/// The one partition that a disk is given: the disk as a whole, as a public
/// partition of unknown file system.
pub open spec fn whole_disk_partition(d: DiskReportView) -> PartitionInfoView {
    PartitionInfoView {
        name: d.name,
        path: d.mount_point,
        size: d.total_space,
        filesystem: Some("Unknown"@),
        is_mounted: !d.mount_point_is_empty,
        mount_point: if d.mount_point_is_empty {
            None
        } else {
            Some(d.mount_point)
        },
        partition_type: "public"@,
        device_path: d.name,
    }
}

/// The device that a disk is.
pub open spec fn device_of(d: DiskReportView) -> UsbDeviceView {
    UsbDeviceView {
        name: d.name,
        device_path: d.mount_point,
        size: d.total_space,
        partitions: seq![whole_disk_partition(d)],
        is_mounted: !d.mount_point_is_empty,
        is_removable: d.is_removable,
    }
}

/// The devices of the removable disks among `disks`, in order.
pub open spec fn removable_devices(disks: Seq<DiskReportView>) -> Seq<UsbDeviceView>
    decreases disks.len(),
{
    if disks.len() == 0 {
        Seq::empty()
    } else if disks.last().is_removable {
        removable_devices(disks.drop_last()).push(device_of(disks.last()))
    } else {
        removable_devices(disks.drop_last())
    }
}

/// The device of the first disk among `disks` whose mount point is `path`.
pub open spec fn device_at(disks: Seq<DiskReportView>, path: PathBuf) -> Option<UsbDeviceView>
    decreases disks.len(),
{
    if disks.len() == 0 {
        None
    } else {
        match device_at(disks.drop_last(), path) {
            Some(d) => Some(d),
            None => if same_path(disks.last().mount_point, path) {
                Some(device_of(disks.last()))
            } else {
                None
            },
        }
    }
}

proof fn lemma_device_at_extends(disks: Seq<DiskReportView>, path: PathBuf, k: int)
    requires
        0 <= k <= disks.len(),
        device_at(disks.take(k), path) is Some,
    ensures
        device_at(disks, path) == device_at(disks.take(k), path),
    decreases disks.len() - k,
{
    if k == disks.len() {
        assert(disks.take(k) =~= disks);
    } else {
        assert(disks.take(k + 1).drop_last() =~= disks.take(k));
        lemma_device_at_extends(disks, path, k + 1);
    }
}

fn partitions_for(disk: &DiskReport) -> (v: Vec<PartitionInfo>)
    ensures
        v@.len() == 1,
        v@[0]@ == whole_disk_partition(disk@),
{
    let mounted = !disk.mount_point_is_empty;
    let partition = PartitionInfo {
        name: disk.name.clone(),
        path: disk.mount_point.clone(),
        size: disk.total_space,
        filesystem: Some("Unknown".to_owned()),
        is_mounted: mounted,
        mount_point: if mounted {
            Some(disk.mount_point.clone())
        } else {
            None
        },
        partition_type: "public".to_owned(),
        device_path: disk.name.clone(),
    };
    let mut v: Vec<PartitionInfo> = Vec::new();
    v.push(partition);
    v
}

fn device_for(disk: &DiskReport) -> (d: UsbDevice)
    ensures
        d@ == device_of(disk@),
{
    let d = UsbDevice {
        name: disk.name.clone(),
        device_path: disk.mount_point.clone(),
        size: disk.total_space,
        partitions: partitions_for(disk),
        is_mounted: !disk.mount_point_is_empty,
        is_removable: disk.is_removable,
    };
    assert(d@.partitions =~= seq![whole_disk_partition(disk@)]);
    d
}

/// Device manager for USB detection and management.
pub struct DeviceManager {
    system: System,
}

impl DeviceManager {
    /// The disks that the manager knows, as the system last listed them.
    pub closed spec fn disks(&self) -> Seq<DiskReportView> {
        system_disks(self.system)
    }

    /// A device manager with the disks of the system.
    pub fn new() -> (m: Self) {
        let mut system = system_new_all();
        system_refresh_disks(&mut system);
        DeviceManager { system }
    }

    /// Brings the sizes of the disks up to date. The disks that the manager
    /// knows stay the same: a disk that was attached or detached since the
    /// manager was made is not taken note of.
    pub fn refresh(&mut self)
        ensures
            same_disks_but_for_size(old(self).disks(), final(self).disks()),
    {
        system_refresh_disks(&mut self.system);
    }

    /// The USB devices: the removable disks that the manager knows.
    pub fn get_usb_devices(&self) -> (r: Result<Vec<UsbDevice>, DeepVaultError>)
        ensures
            r is Ok,
            device_views(r->Ok_0@) == removable_devices(self.disks()),
    {
        let reports = system_disk_reports(&self.system);
        let ghost all = report_views(reports@);
        let mut devices: Vec<UsbDevice> = Vec::new();
        let mut i: usize = 0;
        assert(all.take(0) =~= Seq::<DiskReportView>::empty());
        assert(device_views(devices@) =~= Seq::<UsbDeviceView>::empty());
        while i < reports.len()
            invariant
                i <= reports.len(),
                all == report_views(reports@),
                device_views(devices@) == removable_devices(all.take(i as int)),
            decreases reports.len() - i,
        {
            proof {
                assert(all.take(i + 1).drop_last() =~= all.take(i as int));
                assert(all.take(i + 1).last() == reports@[i as int]@);
            }
            if reports[i].is_removable {
                let ghost before = device_views(devices@);
                let device = device_for(&reports[i]);
                devices.push(device);
                assert(device_views(devices@) =~= before.push(device@));
            }
            i += 1;
        }
        assert(all.take(reports.len() as int) =~= all);
        Ok(devices)
    }

    /// The device whose mount point is `path`: the first such disk that the
    /// manager knows, removable or not.
    pub fn get_device_by_path(&self, path: &PathBuf) -> (r: Result<
        Option<UsbDevice>,
        DeepVaultError,
    >)
        ensures
            r is Ok,
            match device_at(self.disks(), *path) {
                Some(d) => r->Ok_0 is Some && r->Ok_0->0@ == d,
                None => r->Ok_0 is None,
            },
    {
        let reports = system_disk_reports(&self.system);
        let ghost all = report_views(reports@);
        let mut i: usize = 0;
        assert(all.take(0) =~= Seq::<DiskReportView>::empty());
        while i < reports.len()
            invariant
                i <= reports.len(),
                all == report_views(reports@),
                all == self.disks(),
                device_at(all.take(i as int), *path) is None,
            decreases reports.len() - i,
        {
            proof {
                assert(all.take(i + 1).drop_last() =~= all.take(i as int));
                assert(all.take(i + 1).last() == reports@[i as int]@);
            }
            if paths_equal(&reports[i].mount_point, path) {
                proof {
                    lemma_device_at_extends(all, *path, i + 1);
                }
                return Ok(Some(device_for(&reports[i])));
            }
            i += 1;
        }
        assert(all.take(reports.len() as int) =~= all);
        Ok(None)
    }
}

impl Default for DeviceManager {
    fn default() -> Self {
        Self::new()
    }
}

// ---------------------------------------------------------------------------
// Logical-disk listings
// ---------------------------------------------------------------------------

/// The one partition that a removable logical disk is given: the drive as
/// a whole, as a mounted public FAT32 partition.
pub open spec fn whole_drive_partition(device_id: Seq<char>) -> PartitionInfoView {
    PartitionInfoView {
        name: device_id + "_partition"@,
        path: path_of(device_id),
        size: 0,
        filesystem: Some("FAT32"@),
        is_mounted: true,
        mount_point: Some(path_of(device_id)),
        partition_type: "public"@,
        device_path: device_id,
    }
}

/// The device that a line of a logical-disk listing in CSV form names, if
/// it names one. The fields are the node, the device identifier, the size,
/// the volume name and the free space. A blank line, a line of fewer than
/// five fields, and a line whose size is no number above zero name none. A
/// drive without a volume name is called `USB Drive` and its identifier.
pub open spec fn listed_drive(line: Seq<char>) -> Option<UsbDeviceView> {
    let fields = pieces(line, ',');
    if is_blank(line) || fields.len() < 5 {
        None
    } else {
        let device_id = trimmed(fields[1]);
        let volume_name = trimmed(fields[3]);
        match parse_unsigned(trimmed(fields[2]), u64::MAX as nat) {
            Some(size) => if size > 0 {
                Some(
                    UsbDeviceView {
                        name: if volume_name.len() == 0 {
                            "USB Drive "@ + device_id
                        } else {
                            volume_name
                        },
                        device_path: path_of(device_id),
                        size: size as u64,
                        partitions: seq![whole_drive_partition(device_id)],
                        is_mounted: true,
                        is_removable: true,
                    },
                )
            } else {
                None
            },
            None => None,
        }
    }
}

/// The devices that the lines `ls` name, in order.
pub open spec fn listed_drives(ls: Seq<Seq<char>>) -> Seq<UsbDeviceView>
    decreases ls.len(),
{
    if ls.len() == 0 {
        Seq::empty()
    } else {
        let init = listed_drives(ls.drop_last());
        match listed_drive(ls.last()) {
            Some(d) => init.push(d),
            None => init,
        }
    }
}

fn drive_from_line(line: &Vec<char>) -> (r: Option<UsbDevice>)
    ensures
        match listed_drive(line@) {
            Some(d) => r is Some && r->0@ == d,
            None => r is None,
        },
{
    if is_blank_chars(line) {
        return None;
    }
    let fields = split_on(line, ',');
    if fields.len() < 5 {
        return None;
    }
    assert(views(fields@)[1] == fields@[1]@);
    assert(views(fields@)[2] == fields@[2]@);
    assert(views(fields@)[3] == fields@[3]@);
    let device_id = trim_chars(&fields[1]);
    let size_text = trim_chars(&fields[2]);
    let volume_name = trim_chars(&fields[3]);
    let size = match parse_unsigned_chars(&size_text, 0xffff_ffff_ffff_ffff) {
        Some(n) => n,
        None => {
            return None;
        },
    };
    if size == 0 {
        return None;
    }
    let id_text = string_of(&device_id);
    let name = if volume_name.len() == 0 {
        let mut n: Vec<char> = Vec::new();
        push_str(&mut n, "USB Drive ");
        push_all(&mut n, &device_id);
        string_of(&n)
    } else {
        string_of(&volume_name)
    };
    let mut partition_name: Vec<char> = Vec::new();
    push_all(&mut partition_name, &device_id);
    push_str(&mut partition_name, "_partition");
    let partition = PartitionInfo {
        name: string_of(&partition_name),
        path: path_from_text(id_text.as_str()),
        size: 0,
        filesystem: Some("FAT32".to_owned()),
        is_mounted: true,
        mount_point: Some(path_from_text(id_text.as_str())),
        partition_type: "public".to_owned(),
        device_path: id_text.clone(),
    };
    let mut partitions: Vec<PartitionInfo> = Vec::new();
    partitions.push(partition);
    let device = UsbDevice {
        name,
        device_path: path_from_text(id_text.as_str()),
        size,
        partitions,
        is_mounted: true,
        is_removable: true,
    };
    assert(device@.partitions =~= seq![whole_drive_partition(device_id@)]);
    Some(device)
}

/// The USB devices of a listing of the removable logical disks in CSV
/// form. The first line of the listing is passed over.
pub fn usb_devices_from_listing(listing: &str) -> (devices: Vec<UsbDevice>)
    ensures
        device_views(devices@) == listed_drives(lines(listing@).skip(1)),
{
    let ls = split_lines(&chars_of(listing));
    let ghost rest = views(ls@).skip(1);
    let mut devices: Vec<UsbDevice> = Vec::new();
    let mut i: usize = 1;
    assert(rest.take(0) =~= Seq::<Seq<char>>::empty());
    assert(device_views(devices@) =~= Seq::<UsbDeviceView>::empty());
    while i < ls.len()
        invariant
            1 <= i <= ls.len(),
            rest == views(ls@).skip(1),
            device_views(devices@) == listed_drives(rest.take(i - 1)),
        decreases ls.len() - i,
    {
        proof {
            assert(rest.take(i as int).drop_last() =~= rest.take(i - 1));
            assert(rest.take(i as int).last() == ls@[i as int]@);
        }
        match drive_from_line(&ls[i]) {
            Some(device) => {
                let ghost before = device_views(devices@);
                devices.push(device);
                assert(device_views(devices@) =~= before.push(device@));
            },
            None => {},
        }
        i += 1;
    }
    assert(rest.take(ls.len() - 1) =~= rest);
    devices
}

} // verus!
