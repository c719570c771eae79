//! Mount management for encrypted volumes.

use vstd::prelude::*;
use std::path::PathBuf;
use crate::error::DeepVaultError;
use crate::paths::path_from_text;
use crate::paths::path_of;
use crate::text::push_str;
use crate::text::string_of;

verus! {

/// Mount status.
#[derive(Clone, Debug, PartialEq)]
pub enum MountStatus {
    Mounted(PathBuf),
    Unmounted,
    Error(String),
}

/// Mount manager for encrypted volumes.
pub struct MountManager {
    device_path: PathBuf,
}

impl MountManager {
    /// The path of the device that the manager is for.
    pub closed spec fn device(&self) -> PathBuf {
        self.device_path
    }

    /// A mount manager for the device at `device_path`.
    pub fn new(device_path: PathBuf) -> (m: Self)
        ensures
            m.device() == device_path,
    {
        MountManager { device_path }
    }

    /// The path of the device that the manager is for.
    pub fn device_path(&self) -> (p: &PathBuf)
        ensures
            *p == self.device(),
    {
        &self.device_path
    }

    /// The mount status of a volume as far as the manager knows it: it keeps
    /// no record of mounts, so every volume counts as unmounted.
    pub fn get_mount_status(&self, volume_name: &str) -> (r: Result<MountStatus, DeepVaultError>)
        ensures
            r is Ok,
            r->Ok_0 is Unmounted,
    {
        Ok(MountStatus::Unmounted)
    }
}

/// The drive letter under which an encrypted volume is mounted where
/// volumes are mounted under letters.
pub const MOUNT_LETTER: char = 'Z';

/// Where the volume `volume_name` is mounted where volumes are mounted
/// under `/mnt`.
pub open spec fn mount_point_text(volume_name: Seq<char>) -> Seq<char> {
    "/mnt/"@ + volume_name
}

/// The device of the opened volume `volume_name` under the device mapper.
pub open spec fn mapper_device_text(volume_name: Seq<char>) -> Seq<char> {
    "/dev/mapper/"@ + volume_name
}

/// What is reported of a step that failed: what failed, and the tool's
/// diagnostic text.
pub open spec fn failure_text(what: Seq<char>, diagnostic: Seq<char>) -> Seq<char> {
    what + ": "@ + diagnostic
}

impl MountManager {
    /// Where the volume `volume_name` is mounted under `/mnt`.
    pub fn mount_point_for(volume_name: &str) -> (s: String)
        ensures
            s@ == mount_point_text(volume_name@),
    {
        let mut out: Vec<char> = Vec::new();
        push_str(&mut out, "/mnt/");
        push_str(&mut out, volume_name);
        string_of(&out)
    }

    /// The device of the opened volume `volume_name` under the device
    /// mapper.
    pub fn mapper_device_for(volume_name: &str) -> (s: String)
        ensures
            s@ == mapper_device_text(volume_name@),
    {
        let mut out: Vec<char> = Vec::new();
        push_str(&mut out, "/dev/mapper/");
        push_str(&mut out, volume_name);
        string_of(&out)
    }

    /// The status after the step `what` has failed with the diagnostic text
    /// `diagnostic`.
    pub fn step_failed(what: &str, diagnostic: &str) -> (status: MountStatus)
        ensures
            status matches MountStatus::Error(m) && m@ == failure_text(what@, diagnostic@),
    {
        let mut out: Vec<char> = Vec::new();
        push_str(&mut out, what);
        push_str(&mut out, ": ");
        push_str(&mut out, diagnostic);
        MountStatus::Error(string_of(&out))
    }

    /// The status after the volume has been mounted at `mount_point`.
    pub fn mounted_at(mount_point: &str) -> (status: MountStatus)
        ensures
            status matches MountStatus::Mounted(p) && p == path_of(mount_point@),
    {
        MountStatus::Mounted(path_from_text(mount_point))
    }
}

} // verus!
