//! Error types.
//!
//! `DeepVaultError` is the error of the device, crypto and configuration
//! layers; `VaultError` is the error of the hidden-volume session manager.

use vstd::prelude::*;
use crate::text::push_str;
use crate::text::string_of;

verus! {

/// `std::io::Error`, as an opaque value.
#[verifier::external_type_specification]
#[verifier::external_body]
pub struct ExIoError(std::io::Error);

/// `serde_json::Error`, as an opaque value.
#[verifier::external_type_specification]
#[verifier::external_body]
pub struct ExJsonError(serde_json::Error);

/// `std::io::Error`'s `Display`, through `to_string`. The text depends on
/// the platform and its locale; nothing is claimed of it.
#[verifier::external_body]
fn describe_io_error(e: &std::io::Error) -> (s: String) {
    e.to_string()
}

/// `serde_json::Error`'s `Display`, through `to_string`. The error may wrap
/// an I/O error; nothing is claimed of the text.
#[verifier::external_body]
fn describe_json_error(e: &serde_json::Error) -> (s: String) {
    e.to_string()
}

/// Main error type for DeepVault operations.
#[derive(Debug)]
pub enum DeepVaultError {
    Device(String),
    Crypto(String),
    Partition(String),
    Mount(String),
    Config(String),
    Permission(String),
    System(String),
    Io(std::io::Error),
    Serialization(serde_json::Error),
    InvalidInput(String),
    Cancelled,
    NotImplemented(String),
}

impl DeepVaultError {
    /// The text that goes before the detail in `message`.
    pub open spec fn prefix(&self) -> Seq<char> {
        match self {
            DeepVaultError::Device(_) => "Device error: "@,
            DeepVaultError::Crypto(_) => "Cryptographic error: "@,
            DeepVaultError::Partition(_) => "Partition error: "@,
            DeepVaultError::Mount(_) => "Mount error: "@,
            DeepVaultError::Config(_) => "Configuration error: "@,
            DeepVaultError::Permission(_) => "Permission denied: "@,
            DeepVaultError::System(_) => "System error: "@,
            DeepVaultError::Io(_) => "IO error: "@,
            DeepVaultError::Serialization(_) => "Serialization error: "@,
            DeepVaultError::InvalidInput(_) => "Invalid input: "@,
            DeepVaultError::Cancelled => "Operation cancelled"@,
            DeepVaultError::NotImplemented(_) => "Not implemented: "@,
        }
    }

    /// The detail that the error carries as a text; for the errors that wrap
    /// an I/O or a JSON error, what that error prints for itself.
    pub open spec fn detail(&self) -> Option<Seq<char>> {
        match self {
            DeepVaultError::Device(s) => Some(s@),
            DeepVaultError::Crypto(s) => Some(s@),
            DeepVaultError::Partition(s) => Some(s@),
            DeepVaultError::Mount(s) => Some(s@),
            DeepVaultError::Config(s) => Some(s@),
            DeepVaultError::Permission(s) => Some(s@),
            DeepVaultError::System(s) => Some(s@),
            DeepVaultError::Io(_) => None,
            DeepVaultError::Serialization(_) => None,
            DeepVaultError::InvalidInput(s) => Some(s@),
            DeepVaultError::Cancelled => Some(Seq::empty()),
            DeepVaultError::NotImplemented(s) => Some(s@),
        }
    }

    /// The human-readable message: the kind of error, then its detail.
    pub fn message(&self) -> (m: String)
        ensures
            self.prefix().is_prefix_of(m@),
            self.detail() matches Some(d) ==> m@ == self.prefix() + d,
    {
        let mut out: Vec<char> = Vec::new();
        let ghost words = self.prefix();
        match self {
            DeepVaultError::Device(s) => {
                push_str(&mut out, "Device error: ");
                push_str(&mut out, s.as_str());
            },
            DeepVaultError::Crypto(s) => {
                push_str(&mut out, "Cryptographic error: ");
                push_str(&mut out, s.as_str());
            },
            DeepVaultError::Partition(s) => {
                push_str(&mut out, "Partition error: ");
                push_str(&mut out, s.as_str());
            },
            DeepVaultError::Mount(s) => {
                push_str(&mut out, "Mount error: ");
                push_str(&mut out, s.as_str());
            },
            DeepVaultError::Config(s) => {
                push_str(&mut out, "Configuration error: ");
                push_str(&mut out, s.as_str());
            },
            DeepVaultError::Permission(s) => {
                push_str(&mut out, "Permission denied: ");
                push_str(&mut out, s.as_str());
            },
            DeepVaultError::System(s) => {
                push_str(&mut out, "System error: ");
                push_str(&mut out, s.as_str());
            },
            DeepVaultError::Io(e) => {
                push_str(&mut out, "IO error: ");
                let d = describe_io_error(e);
                push_str(&mut out, d.as_str());
            },
            DeepVaultError::Serialization(e) => {
                push_str(&mut out, "Serialization error: ");
                let d = describe_json_error(e);
                push_str(&mut out, d.as_str());
            },
            DeepVaultError::InvalidInput(s) => {
                push_str(&mut out, "Invalid input: ");
                push_str(&mut out, s.as_str());
            },
            DeepVaultError::Cancelled => {
                push_str(&mut out, "Operation cancelled");
            },
            DeepVaultError::NotImplemented(s) => {
                push_str(&mut out, "Not implemented: ");
                push_str(&mut out, s.as_str());
            },
        }
        assert(words.is_prefix_of(out@)) by {
            assert(out@.take(words.len() as int) =~= words);
        }
        string_of(&out)
    }
}

/// What can go wrong in the hidden-volume session manager.
#[derive(Debug)]
pub enum VaultError {
    /// No credential artifact has ever been stored.
    CredentialUnset,
    /// The passphrase does not match the stored artifact.
    CredentialMismatch,
    /// A parameter of the key derivation is outside the supported range: a
    /// cost, or the length of the salt.
    KdfConfigInvalid,
    /// The disk listing names no online disk.
    NoOnlineDisk,
    /// No partition of the chosen disk lacks a mount designator and has an offset.
    NoConcealedPartition,
    /// A listing line could not be read as a record.
    ParseAmbiguous,
    /// A volume is revealed already, under this designator.
    AlreadyRevealed(char),
    /// The reveal command failed; the tool's diagnostic text.
    RevealFailed(String),
    /// The conceal command failed; the tool's diagnostic text.
    ConcealFailed(String),
    /// An external tool kept failing; the last error message seen.
    ExternalToolFailure(String),
    /// No session has this identifier.
    SessionNotFound,
    /// The session has no entry at this path.
    FileNotFound,
    /// The entry at this path is a directory.
    IsDirectory,
}

/// The mathematical value of a `VaultError`.
pub enum VaultErrorView {
    CredentialUnset,
    CredentialMismatch,
    KdfConfigInvalid,
    NoOnlineDisk,
    NoConcealedPartition,
    ParseAmbiguous,
    AlreadyRevealed(char),
    RevealFailed(Seq<char>),
    ConcealFailed(Seq<char>),
    ExternalToolFailure(Seq<char>),
    SessionNotFound,
    FileNotFound,
    IsDirectory,
}

impl View for VaultError {
    type V = VaultErrorView;

    open spec fn view(&self) -> VaultErrorView {
        match self {
            VaultError::CredentialUnset => VaultErrorView::CredentialUnset,
            VaultError::CredentialMismatch => VaultErrorView::CredentialMismatch,
            VaultError::KdfConfigInvalid => VaultErrorView::KdfConfigInvalid,
            VaultError::NoOnlineDisk => VaultErrorView::NoOnlineDisk,
            VaultError::NoConcealedPartition => VaultErrorView::NoConcealedPartition,
            VaultError::ParseAmbiguous => VaultErrorView::ParseAmbiguous,
            VaultError::AlreadyRevealed(c) => VaultErrorView::AlreadyRevealed(*c),
            VaultError::RevealFailed(s) => VaultErrorView::RevealFailed(s@),
            VaultError::ConcealFailed(s) => VaultErrorView::ConcealFailed(s@),
            VaultError::ExternalToolFailure(s) => VaultErrorView::ExternalToolFailure(s@),
            VaultError::SessionNotFound => VaultErrorView::SessionNotFound,
            VaultError::FileNotFound => VaultErrorView::FileNotFound,
            VaultError::IsDirectory => VaultErrorView::IsDirectory,
        }
    }
}

impl VaultErrorView {
    /// The human-readable message of the error.
    pub open spec fn message(self) -> Seq<char> {
        match self {
            VaultErrorView::CredentialUnset => "no credential has been stored"@,
            VaultErrorView::CredentialMismatch => "the passphrase does not match"@,
            VaultErrorView::KdfConfigInvalid => "the key derivation parameters are not supported"@,
            VaultErrorView::NoOnlineDisk => "no online disk was found"@,
            VaultErrorView::NoConcealedPartition => "no concealed partition was found"@,
            VaultErrorView::ParseAmbiguous => "the listing line could not be read"@,
            VaultErrorView::AlreadyRevealed(c) => "a volume is already revealed as "@.push(c),
            VaultErrorView::RevealFailed(s) => "revealing the volume failed: "@ + s,
            VaultErrorView::ConcealFailed(s) => "concealing the volume failed: "@ + s,
            VaultErrorView::ExternalToolFailure(s) => "the external tool failed: "@ + s,
            VaultErrorView::SessionNotFound => "no such session"@,
            VaultErrorView::FileNotFound => "no such file"@,
            VaultErrorView::IsDirectory => "the path is a directory"@,
        }
    }
}

impl VaultError {
    /// The human-readable message of the error. It never holds a passphrase
    /// or a credential artifact: the error carries none.
    pub fn message(&self) -> (m: String)
        ensures
            m@ == self@.message(),
    {
        let mut out: Vec<char> = Vec::new();
        match self {
            VaultError::CredentialUnset => {
                push_str(&mut out, "no credential has been stored");
            },
            VaultError::CredentialMismatch => {
                push_str(&mut out, "the passphrase does not match");
            },
            VaultError::KdfConfigInvalid => {
                push_str(&mut out, "the key derivation parameters are not supported");
            },
            VaultError::NoOnlineDisk => {
                push_str(&mut out, "no online disk was found");
            },
            VaultError::NoConcealedPartition => {
                push_str(&mut out, "no concealed partition was found");
            },
            VaultError::ParseAmbiguous => {
                push_str(&mut out, "the listing line could not be read");
            },
            VaultError::AlreadyRevealed(c) => {
                push_str(&mut out, "a volume is already revealed as ");
                out.push(*c);
            },
            VaultError::RevealFailed(s) => {
                push_str(&mut out, "revealing the volume failed: ");
                push_str(&mut out, s.as_str());
            },
            VaultError::ConcealFailed(s) => {
                push_str(&mut out, "concealing the volume failed: ");
                push_str(&mut out, s.as_str());
            },
            VaultError::ExternalToolFailure(s) => {
                push_str(&mut out, "the external tool failed: ");
                push_str(&mut out, s.as_str());
            },
            VaultError::SessionNotFound => {
                push_str(&mut out, "no such session");
            },
            VaultError::FileNotFound => {
                push_str(&mut out, "no such file");
            },
            VaultError::IsDirectory => {
                push_str(&mut out, "the path is a directory");
            },
        }
        string_of(&out)
    }

    /// A copy of the error.
    pub fn duplicate(&self) -> (e: VaultError)
        ensures
            e@ == self@,
    {
        match self {
            VaultError::CredentialUnset => VaultError::CredentialUnset,
            VaultError::CredentialMismatch => VaultError::CredentialMismatch,
            VaultError::KdfConfigInvalid => VaultError::KdfConfigInvalid,
            VaultError::NoOnlineDisk => VaultError::NoOnlineDisk,
            VaultError::NoConcealedPartition => VaultError::NoConcealedPartition,
            VaultError::ParseAmbiguous => VaultError::ParseAmbiguous,
            VaultError::AlreadyRevealed(c) => VaultError::AlreadyRevealed(*c),
            VaultError::RevealFailed(s) => VaultError::RevealFailed(s.clone()),
            VaultError::ConcealFailed(s) => VaultError::ConcealFailed(s.clone()),
            VaultError::ExternalToolFailure(s) => VaultError::ExternalToolFailure(s.clone()),
            VaultError::SessionNotFound => VaultError::SessionNotFound,
            VaultError::FileNotFound => VaultError::FileNotFound,
            VaultError::IsDirectory => VaultError::IsDirectory,
        }
    }
}

} // verus!
