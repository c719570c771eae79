//! Secure wipe.

use vstd::prelude::*;
use std::path::PathBuf;
use crate::text::decimal_of;
use crate::text::digits_of;
use crate::text::push_all;
use crate::text::push_str;
use crate::text::string_of;

verus! {

/// Wipe patterns.
#[allow(non_camel_case_types)]
#[derive(Clone, Copy, Debug, PartialEq, Eq, Structural)]
pub enum WipePattern {
    Random,
    Zeros,
    Ones,
    /// 3-pass DoD standard.
    DoD5220_22M,
}

/// Wipe options.
#[derive(Clone, Copy, Debug)]
pub struct WipeOptions {
    /// Wipe only the header metadata.
    pub header_only: bool,
    /// Number of passes for secure wipe.
    pub passes: u32,
    /// Wipe pattern.
    pub pattern: WipePattern,
}

impl Default for WipeOptions {
    fn default() -> (o: Self)
        ensures
            !o.header_only,
            o.passes == 3,
            o.pattern == WipePattern::DoD5220_22M,
    {
        WipeOptions { header_only: false, passes: 3, pattern: WipePattern::DoD5220_22M }
    }
}

/// How one pass over a file is written.
#[derive(Clone, Copy, Debug, PartialEq, Eq, Structural)]
pub enum OverwritePass {
    /// Every byte is this byte.
    Fill(u8),
    /// Every byte is random.
    Random,
}

/// The passes by which a file is deleted securely, in order: ones, zeros,
/// random bytes.
pub open spec fn delete_passes() -> Seq<OverwritePass> {
    seq![OverwritePass::Fill(0xff), OverwritePass::Fill(0x00), OverwritePass::Random]
}

/// The bytes of a pass that repeats `pattern` over `size` bytes.
pub open spec fn pattern_bytes(size: nat, pattern: Seq<u8>) -> Seq<u8> {
    Seq::new(size, |i: int| pattern[i % pattern.len() as int])
}

/// Secure wipe manager.
pub struct WipeManager {
    device_path: PathBuf,
}

impl WipeManager {
    /// The path of the device that the manager is for.
    pub closed spec fn device(&self) -> PathBuf {
        self.device_path
    }

    /// A wipe manager for the device at `device_path`.
    pub fn new(device_path: PathBuf) -> (m: Self)
        ensures
            m.device() == device_path,
    {
        WipeManager { device_path }
    }

    /// The path of the device that the manager is for.
    pub fn device_path(&self) -> (p: &PathBuf)
        ensures
            *p == self.device(),
    {
        &self.device_path
    }

    /// The passes by which a file is deleted securely.
    pub fn secure_delete_passes() -> (v: Vec<OverwritePass>)
        ensures
            v@ == delete_passes(),
    {
        let mut v: Vec<OverwritePass> = Vec::new();
        v.push(OverwritePass::Fill(0xff));
        v.push(OverwritePass::Fill(0x00));
        v.push(OverwritePass::Random);
        assert(v@ =~= delete_passes());
        v
    }

    /// The buffer of a pass that repeats `pattern` over `size` bytes.
    pub fn pattern_buffer(size: usize, pattern: &[u8]) -> (buffer: Vec<u8>)
        requires
            pattern@.len() > 0,
        ensures
            buffer@ == pattern_bytes(size as nat, pattern@),
    {
        let mut buffer: Vec<u8> = Vec::new();
        let mut i: usize = 0;
        while i < size
            invariant
                i <= size,
                pattern@.len() > 0,
                buffer@ == pattern_bytes(i as nat, pattern@),
            decreases size - i,
        {
            buffer.push(pattern[i % pattern.len()]);
            assert(buffer@ =~= pattern_bytes((i + 1) as nat, pattern@));
            i += 1;
        }
        buffer
    }
}

/// The names under which header metadata is kept on a device.
pub open spec fn header_names() -> Seq<Seq<char>> {
    seq![".dv_meta"@, ".deepvault_meta"@, "header.bin"@]
}

/// The device that a pass with `pattern` copies over the wiped device, for
/// the patterns that are written by copying; `None` for the others, which
/// are written by shredding.
pub open spec fn pattern_source(pattern: WipePattern) -> Option<Seq<char>> {
    match pattern {
        WipePattern::Random => Some("/dev/urandom"@),
        WipePattern::Zeros => Some("/dev/zero"@),
        _ => None,
    }
}

/// What is reported when pass number `pass`, counted from 0, has failed
/// with the diagnostic text `diagnostic`.
pub open spec fn pass_failure_text(pass: u32, diagnostic: Seq<char>) -> Seq<char> {
    "Wipe pass "@ + digits_of(pass as nat + 1) + " failed: "@ + diagnostic
}

impl WipeManager {
    /// The names under which header metadata is looked for.
    pub fn header_file_names() -> (names: Vec<String>)
        ensures
            names@.len() == 3,
            names@[0]@ == header_names()[0],
            names@[1]@ == header_names()[1],
            names@[2]@ == header_names()[2],
    {
        let mut names: Vec<String> = Vec::new();
        names.push(".dv_meta".to_owned());
        names.push(".deepvault_meta".to_owned());
        names.push("header.bin".to_owned());
        names
    }

    /// The device that a pass with `pattern` copies over the wiped device.
    pub fn source_for(pattern: WipePattern) -> (source: Option<String>)
        ensures
            match pattern_source(pattern) {
                Some(t) => source is Some && source->0@ == t,
                None => source is None,
            },
    {
        match pattern {
            WipePattern::Random => Some("/dev/urandom".to_owned()),
            WipePattern::Zeros => Some("/dev/zero".to_owned()),
            _ => None,
        }
    }

    /// What is reported when pass number `pass`, counted from 0, has failed.
    pub fn pass_failed(pass: u32, diagnostic: &str) -> (m: String)
        ensures
            m@ == pass_failure_text(pass, diagnostic@),
    {
        let mut out: Vec<char> = Vec::new();
        push_str(&mut out, "Wipe pass ");
        push_all(&mut out, &decimal_of(pass as u64 + 1));
        push_str(&mut out, " failed: ");
        push_str(&mut out, diagnostic);
        string_of(&out)
    }
}

} // verus!
