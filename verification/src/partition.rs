//! Partition management.

use vstd::prelude::*;
use std::path::PathBuf;
use crate::device::PartitionInfo;
use crate::error::DeepVaultError;
use crate::paths::path_file_name;
use crate::paths::path_file_name_text;
use crate::paths::path_text;
use crate::paths::path_to_text;
use crate::paths::Platform;
use crate::text::push_str;
use crate::text::string_of;

verus! {

/// Partition types supported by DeepVault.
#[derive(Clone, Copy, Debug, PartialEq, Eq, Structural)]
pub enum PartitionType {
    /// Public partition (FAT32/NTFS/exFAT).
    Public,
    /// Encrypted partition (LUKS/VeraCrypt).
    Encrypted,
    /// Hidden volume (VeraCrypt).
    Hidden,
}

/// Partition configuration.
#[derive(Clone, Debug)]
pub struct PartitionConfig {
    pub partition_type: PartitionType,
    /// `None` for the remaining space.
    pub size: Option<u64>,
    pub filesystem: String,
    pub label: String,
}

/// Partition manager for creating and managing partitions.
pub struct PartitionManager {
    device_path: PathBuf,
}

impl PartitionManager {
    /// The path of the device that the manager is for.
    pub closed spec fn device(&self) -> PathBuf {
        self.device_path
    }

    /// A partition manager for the device at `device_path`.
    pub fn new(device_path: PathBuf) -> (m: Self)
        ensures
            m.device() == device_path,
    {
        PartitionManager { device_path }
    }

    /// The path of the device that the manager is for.
    pub fn device_path(&self) -> (p: &PathBuf)
        ensures
            *p == self.device(),
    {
        &self.device_path
    }

    /// Takes note of the partitions to create. Creating them is the work of
    /// the platform's partitioning tool; nothing here can fail.
    pub fn create_partition_structure(&self, configs: Vec<PartitionConfig>) -> (r: Result<
        (),
        DeepVaultError,
    >)
        ensures
            r is Ok,
    {
        Ok(())
    }

    /// What is known of the partition at `partition_path` without asking the
    /// system: its name, which is the last component of the path or empty,
    /// and its path; it counts as an unmounted public partition of unknown
    /// size and file system.
    pub fn get_partition_info(&self, partition_path: &PathBuf) -> (r: Result<
        PartitionInfo,
        DeepVaultError,
    >)
        ensures
            r is Ok,
            r->Ok_0.name@ == match path_file_name(*partition_path) {
                Some(t) => t,
                None => Seq::empty(),
            },
            r->Ok_0.path == *partition_path,
            r->Ok_0.size == 0,
            r->Ok_0.filesystem is None,
            !r->Ok_0.is_mounted,
            r->Ok_0.mount_point is None,
            r->Ok_0.partition_type@ == "public"@,
            r->Ok_0.device_path@ == path_text(*partition_path),
    {
        Ok(
            PartitionInfo {
                name: match path_file_name_text(partition_path) {
                    Some(name) => name,
                    None => String::new(),
                },
                path: partition_path.clone(),
                size: 0,
                filesystem: None,
                is_mounted: false,
                mount_point: None,
                partition_type: "public".to_owned(),
                device_path: path_to_text(partition_path),
            },
        )
    }
}

/// The arguments that tell a platform's formatting tool the file system
/// and the label. The partition's path is handed over beside them.
pub open spec fn format_argument_texts(
    platform: Platform,
    filesystem: Seq<char>,
    label: Seq<char>,
) -> Seq<Seq<char>> {
    match platform {
        Platform::Linux => seq!["-t "@ + filesystem, "-L "@ + label],
        Platform::Windows => seq!["/FS:"@ + filesystem, "/V:"@ + label, "/Q"@],
        Platform::MacOs => seq!["eraseDisk"@, filesystem, label],
        Platform::Other => Seq::empty(),
    }
}

fn tagged(tag: &str, value: &str) -> (s: String)
    ensures
        s@ == tag@ + value@,
{
    let mut out: Vec<char> = Vec::new();
    push_str(&mut out, tag);
    push_str(&mut out, value);
    string_of(&out)
}

impl PartitionManager {
    /// The arguments that tell the formatting tool of `platform` the file
    /// system and the label.
    pub fn format_arguments(platform: Platform, filesystem: &str, label: &str) -> (args: Vec<String>)
        ensures
            args@.len() == format_argument_texts(platform, filesystem@, label@).len(),
            forall|i: int|
                0 <= i < args@.len() ==> (#[trigger] args@[i])@ == format_argument_texts(
                    platform,
                    filesystem@,
                    label@,
                )[i],
    {
        let mut args: Vec<String> = Vec::new();
        match platform {
            Platform::Linux => {
                args.push(tagged("-t ", filesystem));
                args.push(tagged("-L ", label));
            },
            Platform::Windows => {
                args.push(tagged("/FS:", filesystem));
                args.push(tagged("/V:", label));
                args.push("/Q".to_owned());
            },
            Platform::MacOs => {
                args.push("eraseDisk".to_owned());
                args.push(filesystem.to_owned());
                args.push(label.to_owned());
            },
            Platform::Other => {},
        }
        args
    }
}

} // verus!
