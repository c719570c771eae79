//! Credential verifier: the stored artifact against which a passphrase is
//! checked.
//!
//! The artifact holds the derivation parameters, the salt and the value
//! that the passphrase derives under them. It does not hold the passphrase,
//! and the derivation does not run backwards.

use vstd::prelude::*;
use crate::crypto::constant_time_eq;
use crate::crypto::derive_raw;
use crate::crypto::derived_key;
use crate::crypto::KeyDerivation;
use crate::error::VaultError;
use crate::error::VaultErrorView;

verus! {

/// The persisted record against which passphrases are verified.
#[derive(Clone, Debug, PartialEq, Eq)]
pub struct CredentialArtifact {
    pub kdf_params: KeyDerivation,
    pub salt: Vec<u8>,
    /// What the passphrase derives under the parameters and the salt.
    pub verification: Vec<u8>,
}

/// The mathematical value of a `CredentialArtifact`.
pub struct CredentialArtifactView {
    pub kdf_params: KeyDerivation,
    pub salt: Seq<u8>,
    pub verification: Seq<u8>,
}

impl View for CredentialArtifact {
    type V = CredentialArtifactView;

    open spec fn view(&self) -> CredentialArtifactView {
        CredentialArtifactView {
            kdf_params: self.kdf_params,
            salt: self.salt@,
            verification: self.verification@,
        }
    }
}

/// The artifact of `passphrase` under `kdf_params` and `salt`, or
/// `KdfConfigInvalid` where the derivation gives no value: where the salt has
/// fewer than 3 or more than 48 bytes, where a cost is out of range, or
/// where the hashing refuses what it is handed. A salt of 16 bytes, as a
/// first setup makes it, is of usable length.
pub open spec fn derived_artifact(
    passphrase: Seq<char>,
    kdf_params: KeyDerivation,
    salt: Seq<u8>,
) -> Result<CredentialArtifactView, VaultErrorView> {
    match derived_key(passphrase, salt, kdf_params) {
        Ok(value) => Ok(CredentialArtifactView { kdf_params, salt, verification: value }),
        Err(_) => Err(VaultErrorView::KdfConfigInvalid),
    }
}

/// Whether `passphrase` derives the value of `artifact` under the
/// artifact's parameters and salt, or `KdfConfigInvalid` where the
/// derivation gives no value.
pub open spec fn verification(passphrase: Seq<char>, artifact: CredentialArtifactView) -> Result<
    bool,
    VaultErrorView,
> {
    match derived_key(passphrase, artifact.salt, artifact.kdf_params) {
        Ok(value) => Ok(value == artifact.verification),
        Err(_) => Err(VaultErrorView::KdfConfigInvalid),
    }
}

/// What checking `passphrase` against what is stored gives: `CredentialUnset`
/// where nothing is stored, `KdfConfigInvalid` where the derivation gives no
/// value, `CredentialMismatch` where it gives another value than the stored
/// one.
pub open spec fn credential_check(passphrase: Seq<char>, stored: Option<CredentialArtifactView>) -> Result<
    (),
    VaultErrorView,
> {
    match stored {
        None => Err(VaultErrorView::CredentialUnset),
        Some(artifact) => match verification(passphrase, artifact) {
            Err(e) => Err(e),
            Ok(false) => Err(VaultErrorView::CredentialMismatch),
            Ok(true) => Ok(()),
        },
    }
}

fn copy_of(bytes: &[u8]) -> (out: Vec<u8>)
    ensures
        out@ == bytes@,
{
    let mut out: Vec<u8> = Vec::new();
    let mut i: usize = 0;
    while i < bytes.len()
        invariant
            i <= bytes.len(),
            out@ == bytes@.take(i as int),
        decreases bytes.len() - i,
    {
        out.push(bytes[i]);
        i += 1;
    }
    out
}

/// Derives the artifact of `passphrase` under `kdf_params` and `salt`.
pub fn derive(passphrase: &str, kdf_params: &KeyDerivation, salt: &[u8]) -> (r: Result<
    CredentialArtifact,
    VaultError,
>)
    ensures
        match derived_artifact(passphrase@, *kdf_params, salt@) {
            Ok(a) => r is Ok && r->Ok_0@ == a,
            Err(e) => r is Err && r->Err_0@ == e,
        },
{
    let salt = copy_of(salt);
    match derive_raw(passphrase, &salt, kdf_params) {
        Ok(value) => Ok(CredentialArtifact { kdf_params: *kdf_params, salt, verification: value }),
        Err(_) => Err(VaultError::KdfConfigInvalid),
    }
}

/// Derives the value of `passphrase` under the parameters and the salt of
/// `artifact` and compares it, as a whole, with the artifact's value.
pub fn verify(passphrase: &str, artifact: &CredentialArtifact) -> (r: Result<bool, VaultError>)
    ensures
        match verification(passphrase@, artifact@) {
            Ok(b) => r == Ok::<bool, VaultError>(b),
            Err(e) => r is Err && r->Err_0@ == e,
        },
{
    match derive_raw(passphrase, &artifact.salt, &artifact.kdf_params) {
        Ok(value) => Ok(constant_time_eq(value.as_slice(), artifact.verification.as_slice())),
        Err(_) => Err(VaultError::KdfConfigInvalid),
    }
}

/// Checks `passphrase` against what is stored.
pub fn check(passphrase: &str, stored: Option<&CredentialArtifact>) -> (r: Result<(), VaultError>)
    ensures
        match credential_check(
            passphrase@,
            match stored {
                Some(a) => Some(a@),
                None => None,
            },
        ) {
            Ok(()) => r is Ok,
            Err(e) => r is Err && r->Err_0@ == e,
        },
{
    match stored {
        None => Err(VaultError::CredentialUnset),
        Some(artifact) => match verify(passphrase, artifact) {
            Err(e) => Err(e),
            Ok(false) => Err(VaultError::CredentialMismatch),
            Ok(true) => Ok(()),
        },
    }
}

// ---------------------------------------------------------------------------
// Consequences
// ---------------------------------------------------------------------------

/// A passphrase verifies against its own artifact.
pub proof fn lemma_own_passphrase_verifies(
    passphrase: Seq<char>,
    kdf_params: KeyDerivation,
    salt: Seq<u8>,
)
    requires
        derived_artifact(passphrase, kdf_params, salt) is Ok,
    ensures
        verification(passphrase, derived_artifact(passphrase, kdf_params, salt)->Ok_0) == Ok::<
            bool,
            VaultErrorView,
        >(true),
        credential_check(
            passphrase,
            Some(derived_artifact(passphrase, kdf_params, salt)->Ok_0),
        ) is Ok,
{
}

/// Another passphrase, for which the derivation gives a value too, verifies
/// against the artifact exactly where that value is the same. Where it is
/// another one, verification says no and the check fails with
/// `CredentialMismatch`.
pub proof fn lemma_other_passphrase(
    passphrase: Seq<char>,
    other: Seq<char>,
    kdf_params: KeyDerivation,
    salt: Seq<u8>,
)
    requires
        derived_artifact(passphrase, kdf_params, salt) is Ok,
        derived_key(other, salt, kdf_params) is Ok,
    ensures
        verification(other, derived_artifact(passphrase, kdf_params, salt)->Ok_0) == Ok::<
            bool,
            VaultErrorView,
        >(
            derived_key(other, salt, kdf_params)->Ok_0 == derived_key(
                passphrase,
                salt,
                kdf_params,
            )->Ok_0,
        ),
        derived_key(other, salt, kdf_params)->Ok_0 != derived_key(passphrase, salt, kdf_params)->Ok_0
            ==> credential_check(
            other,
            Some(derived_artifact(passphrase, kdf_params, salt)->Ok_0),
        ) == Err::<(), VaultErrorView>(VaultErrorView::CredentialMismatch),
{
}

} // verus!
