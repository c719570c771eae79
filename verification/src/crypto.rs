//! Key derivation and password verification.
//!
//! Keys are derived with Argon2id from a password, a salt and the cost
//! parameters of a `KeyDerivation`. The hashing itself is the `argon2`
//! crate's; its result is named `argon2id_raw` in contracts.

use vstd::prelude::*;
use crate::error::DeepVaultError;
use crate::text::chars_of;
use crate::text::push_str;
use crate::text::string_of;
use argon2::password_hash::SaltString;
use argon2::Algorithm;
use argon2::Argon2;
use argon2::Params;
use argon2::PasswordHasher;
use argon2::Version;
use base64::Engine;
use rand::Rng;

verus! {

/// Key derivation parameters.
#[derive(Clone, Copy, Debug, PartialEq, Eq, Structural)]
pub struct KeyDerivation {
    /// Memory in KiB.
    pub memory: u32,
    /// Number of passes.
    pub iterations: u32,
    /// Degree of parallelism.
    pub parallelism: u32,
}

impl Default for KeyDerivation {
    fn default() -> (k: Self)
        ensures
            k == (KeyDerivation { memory: 65536, iterations: 3, parallelism: 1 }),
    {
        KeyDerivation { memory: 65536, iterations: 3, parallelism: 1 }
    }
}

impl KeyDerivation {
    /// The parameters that Argon2 accepts: at least 8 KiB of memory and 8 KiB
    /// for each lane, at least one pass, and between 1 and 16777215 lanes.
    pub open spec fn supported(&self) -> bool {
        &&& self.memory >= 8
        &&& 1 <= self.parallelism <= 0xff_ffff
        &&& self.memory >= 8 * self.parallelism
        &&& self.iterations >= 1
    }

    /// Whether Argon2 accepts the parameters.
    pub fn is_supported(&self) -> (r: bool)
        ensures
            r == self.supported(),
    {
        self.memory >= 8 && self.parallelism >= 1 && self.parallelism <= 0xff_ffff
            && self.memory / 8 >= self.parallelism && self.iterations >= 1
    }
}

/// Cryptographic configuration.
#[derive(Clone, Debug)]
pub struct CryptoConfig {
    pub algorithm: String,
    pub kdf_params: KeyDerivation,
    pub salt: Vec<u8>,
    pub header_file: String,
}

/// The mathematical value of a `CryptoConfig`.
pub struct CryptoConfigView {
    pub algorithm: Seq<char>,
    pub kdf_params: KeyDerivation,
    pub salt: Seq<u8>,
    pub header_file: Seq<char>,
}

impl View for CryptoConfig {
    type V = CryptoConfigView;

    open spec fn view(&self) -> CryptoConfigView {
        CryptoConfigView {
            algorithm: self.algorithm@,
            kdf_params: self.kdf_params,
            salt: self.salt@,
            header_file: self.header_file@,
        }
    }
}

/// What a volume's header says of how its key is derived.
#[derive(Clone, Debug)]
pub struct HeaderMetadata {
    pub algorithm: String,
    pub kdf_params: KeyDerivation,
    /// The salt, in lower-case hexadecimal.
    pub salt: String,
    /// The version of this library.
    pub version: String,
    /// When the metadata was made, as an RFC 3339 time.
    pub created_at: String,
}

// ---------------------------------------------------------------------------
// Outside functions
// ---------------------------------------------------------------------------

/// The standard base64 text of `bytes`, without padding.
pub uninterp spec fn base64_unpadded(bytes: Seq<u8>) -> Seq<char>;

/// The length of the unpadded base64 text of `n` bytes: four characters for
/// every three bytes, and two or three for the one or two bytes left over.
pub open spec fn unpadded_length(n: nat) -> nat {
    4 * (n / 3) + if n % 3 == 0 {
        0nat
    } else {
        n % 3 + 1
    }
}

/// A character of the standard base64 alphabet: a letter, a digit, `+` or
/// `/`.
pub open spec fn is_base64_char(c: char) -> bool {
    ||| ('a' <= c && c <= 'z')
    ||| ('A' <= c && c <= 'Z')
    ||| ('0' <= c && c <= '9')
    ||| c == '+'
    ||| c == '/'
}

/// The 32 bytes that Argon2id (version 0x13) derives from `password` under
/// the salt written as `salt_text` and the given costs, or `None` where the
/// `argon2` crate refuses the input.
pub uninterp spec fn argon2id_raw(
    password: Seq<u8>,
    salt_text: Seq<char>,
    memory: u32,
    iterations: u32,
    parallelism: u32,
) -> Option<Seq<u8>>;

/// The hexadecimal digit of `n`, for `n < 16`, in lower case.
pub open spec fn hex_digit(n: nat) -> char {
    if n < 10 {
        (n + 48) as char
    } else {
        (n + 87) as char
    }
}

/// `bytes` in lower-case hexadecimal, two digits for each byte.
pub open spec fn hex_lower(bytes: Seq<u8>) -> Seq<char>
    decreases bytes.len(),
{
    if bytes.len() == 0 {
        Seq::empty()
    } else {
        hex_lower(bytes.drop_last()).push(hex_digit(bytes.last() as nat / 16)).push(
            hex_digit(bytes.last() as nat % 16),
        )
    }
}

/// `base64::engine::general_purpose::STANDARD_NO_PAD.encode`: the result
/// is the standard base64 text of the input without padding. Its length is
/// that of the encoder's own reckoning, and each of its characters is of the
/// standard alphabet.
#[verifier::external_body]
fn encode_base64(bytes: &[u8]) -> (s: String)
    ensures
        s@ == base64_unpadded(bytes@),
        s@.len() == unpadded_length(bytes@.len()),
        forall|i: int| 0 <= i < s@.len() ==> is_base64_char(#[trigger] s@[i]),
{
    base64::engine::general_purpose::STANDARD_NO_PAD.encode(bytes)
}

/// `hex::encode`: each byte becomes two lower-case hexadecimal digits.
#[verifier::external_body]
fn encode_hex(bytes: &[u8]) -> (s: String)
    ensures
        s@ == hex_lower(bytes@),
{
    hex::encode(bytes)
}

/// `rand::thread_rng().fill`: `len` bytes from the thread's random number
/// generator. Nothing is claimed of the bytes but their number.
#[verifier::external_body]
fn random_bytes(len: usize) -> (v: Vec<u8>)
    ensures
        v@.len() == len,
{
    let mut v = vec![0u8; len];
    rand::thread_rng().fill(&mut v[..]);
    v
}

/// `chrono::Utc::now().to_rfc3339()`: the current time. Nothing is claimed
/// of it.
#[verifier::external_body]
fn now_rfc3339() -> String {
    chrono::Utc::now().to_rfc3339()
}

/// A salt text that `SaltString::from_b64` accepts: 4 to 64 characters, each
/// a letter, a digit, or one of `/ + . -`.
pub open spec fn salt_text_accepted(text: Seq<char>) -> bool {
    &&& 4 <= text.len() <= 64
    &&& forall|i: int| 0 <= i < text.len() ==> is_salt_char(#[trigger] text[i])
}

/// A character that may stand in a salt text.
pub open spec fn is_salt_char(c: char) -> bool {
    ||| ('a' <= c && c <= 'z')
    ||| ('A' <= c && c <= 'Z')
    ||| ('0' <= c && c <= '9')
    ||| c == '/'
    ||| c == '+'
    ||| c == '.'
    ||| c == '-'
}

/// Whether `SaltString::from_b64` accepts `text`.
pub fn is_salt_text_accepted(text: &str) -> (r: bool)
    ensures
        r == salt_text_accepted(text@),
{
    let chars = chars_of(text);
    if chars.len() < 4 || chars.len() > 64 {
        return false;
    }
    let mut i: usize = 0;
    while i < chars.len()
        invariant
            i <= chars.len(),
            chars@ == text@,
            forall|j: int| 0 <= j < i ==> is_salt_char(#[trigger] chars@[j]),
        decreases chars.len() - i,
    {
        let c = chars[i];
        let ok = ('a' <= c && c <= 'z') || ('A' <= c && c <= 'Z') || ('0' <= c && c <= '9') || c
            == '/' || c == '+' || c == '.' || c == '-';
        if !ok {
            assert(!is_salt_char(chars@[i as int]));
            return false;
        }
        i += 1;
    }
    true
}

/// `SaltString::from_b64`, `Params::new` with an output length of 32,
/// `Argon2::new` for Argon2id in version 0x13, and `hash_password`: the raw
/// hash, or the text of the error that one of them gave. For an accepted
/// salt text and supported costs the first two succeed, so that the outcome
/// is that of `hash_password`. It allocates `kdf.memory` KiB.
#[verifier::external_body]
fn argon2id_hash(password: &[u8], salt_text: &str, kdf: &KeyDerivation) -> (r: Result<
    Vec<u8>,
    String,
>)
    requires
        salt_text_accepted(salt_text@),
        kdf.supported(),
    ensures
        match argon2id_raw(password@, salt_text@, kdf.memory, kdf.iterations, kdf.parallelism) {
            Some(h) => r is Ok && r->Ok_0@ == h && h.len() == 32,
            None => r is Err,
        },
{
    let salt = SaltString::from_b64(salt_text).map_err(|e| e.to_string())?;
    let params = Params::new(kdf.memory, kdf.iterations, kdf.parallelism, Some(32)).map_err(
        |e| e.to_string(),
    )?;
    let hasher = Argon2::new(Algorithm::Argon2id, Version::V0x13, params);
    let hash = hasher.hash_password(password, &salt).map_err(|e| e.to_string())?;
    hash.hash.map(|h| h.as_bytes().to_vec()).ok_or(String::new())
}

// ---------------------------------------------------------------------------
// Derivation
// ---------------------------------------------------------------------------

/// Why a derivation gave no key.
pub enum DerivationFailure {
    /// The salt is too short or too long to be written as a salt text.
    Salt,
    /// The cost parameters are not supported.
    Params,
    /// The hashing itself failed.
    Hash,
}

/// A salt of so many bytes can be handed to Argon2: its unpadded base64
/// text has the 4 to 64 characters of a salt text.
pub open spec fn usable_salt_length(n: nat) -> bool {
    3 <= n <= 48
}

/// The key that `password` derives under `salt` and `kdf`, or why there is
/// none. The salt is handed to Argon2 as its standard base64 text without
/// padding. A salt of unusable length and unsupported costs are refused
/// before anything is hashed; after that the hashing decides.
pub open spec fn derived_key(password: Seq<char>, salt: Seq<u8>, kdf: KeyDerivation) -> Result<
    Seq<u8>,
    DerivationFailure,
> {
    if !usable_salt_length(salt.len()) {
        Err(DerivationFailure::Salt)
    } else if !kdf.supported() {
        Err(DerivationFailure::Params)
    } else {
        match argon2id_raw(
            vstd::utf8::encode_utf8(password),
            base64_unpadded(salt),
            kdf.memory,
            kdf.iterations,
            kdf.parallelism,
        ) {
            Some(h) => Ok(h),
            None => Err(DerivationFailure::Hash),
        }
    }
}

/// A text of the standard alphabet is an accepted salt text exactly where
/// it has 4 to 64 characters, and the unpadded text of a salt has so many
/// exactly where the salt has 3 to 48 bytes.
pub proof fn lemma_salt_text_of_length(text: Seq<char>, salt_len: nat)
    requires
        text.len() == unpadded_length(salt_len),
        forall|i: int| 0 <= i < text.len() ==> is_base64_char(#[trigger] text[i]),
    ensures
        salt_text_accepted(text) <==> usable_salt_length(salt_len),
{
    assert forall|i: int| 0 <= i < text.len() implies is_salt_char(#[trigger] text[i]) by {
        assert(is_base64_char(text[i]));
    }
}

/// A salt of usable length is never what a derivation fails on, nor are
/// supported costs: then the hashing alone decides, and a key that it gives
/// is the key.
pub proof fn lemma_usable_salt_is_not_refused(password: Seq<char>, salt: Seq<u8>, kdf: KeyDerivation)
    requires
        usable_salt_length(salt.len()),
        kdf.supported(),
    ensures
        derived_key(password, salt, kdf) is Ok <==> argon2id_raw(
            vstd::utf8::encode_utf8(password),
            base64_unpadded(salt),
            kdf.memory,
            kdf.iterations,
            kdf.parallelism,
        ) is Some,
        derived_key(password, salt, kdf) matches Err(f) ==> f is Hash,
{
}

/// The detail of a failed derivation, for error messages.
pub struct DerivationError {
    pub failure: DerivationFailure,
    pub detail: String,
}

/// Derives the 32-byte key of `password` under `salt` and `kdf`.
pub fn derive_raw(password: &str, salt: &Vec<u8>, kdf: &KeyDerivation) -> (r: Result<
    Vec<u8>,
    DerivationError,
>)
    ensures
        match derived_key(password@, salt@, *kdf) {
            Ok(h) => r is Ok && r->Ok_0@ == h && h.len() == 32,
            Err(f) => r is Err && r->Err_0.failure == f,
        },
{
    let salt_text = encode_base64(salt.as_slice());
    proof {
        lemma_salt_text_of_length(salt_text@, salt@.len());
    }
    if !is_salt_text_accepted(salt_text.as_str()) {
        return Err(
            DerivationError {
                failure: DerivationFailure::Salt,
                detail: "the salt must have 3 to 48 bytes".to_owned(),
            },
        );
    }
    if !kdf.is_supported() {
        return Err(
            DerivationError {
                failure: DerivationFailure::Params,
                detail: "cost parameters out of range".to_owned(),
            },
        );
    }
    match argon2id_hash(password.as_bytes(), salt_text.as_str(), kdf) {
        Ok(h) => Ok(h),
        Err(detail) => Err(DerivationError { failure: DerivationFailure::Hash, detail }),
    }
}

/// Whether `a` and `b` hold the same bytes. Every byte of both is looked
/// at, whatever the outcome: the time taken depends on the lengths alone.
pub fn constant_time_eq(a: &[u8], b: &[u8]) -> (r: bool)
    ensures
        r == (a@ == b@),
{
    let n = if a.len() < b.len() {
        a.len()
    } else {
        b.len()
    };
    let mut diff: u8 = 0;
    let mut i: usize = 0;
    assert(a@.take(0) =~= b@.take(0));
    while i < n
        invariant
            i <= n,
            n <= a.len(),
            n <= b.len(),
            diff == 0 <==> a@.take(i as int) == b@.take(i as int),
        decreases n - i,
    {
        let x = a[i];
        let y = b[i];
        let ghost before = diff;
        diff = diff | (x ^ y);
        proof {
            assert((before | (x ^ y)) == 0 <==> (before == 0 && x == y)) by (bit_vector);
            assert(a@.take(i + 1) == a@.take(i as int).push(x));
            assert(b@.take(i + 1) == b@.take(i as int).push(y));
            if a@.take(i + 1) == b@.take(i + 1) {
                assert(a@.take(i + 1).drop_last() == b@.take(i + 1).drop_last());
                assert(a@.take(i + 1).drop_last() =~= a@.take(i as int));
                assert(b@.take(i + 1).drop_last() =~= b@.take(i as int));
                assert(a@.take(i + 1).last() == b@.take(i + 1).last());
            }
        }
        i += 1;
    }
    let same_len = a.len() == b.len();
    proof {
        if same_len {
            assert(a@.take(n as int) =~= a@);
            assert(b@.take(n as int) =~= b@);
        } else {
            assert(a@.len() != b@.len());
        }
    }
    same_len && diff == 0
}

// ---------------------------------------------------------------------------
// The manager
// ---------------------------------------------------------------------------

/// Cryptographic operations manager.
pub struct CryptoManager {
    config: CryptoConfig,
}

impl View for CryptoManager {
    type V = CryptoConfigView;

    closed spec fn view(&self) -> CryptoConfigView {
        self.config@
    }
}

/// The message of the `Crypto` error of a failed derivation begins with
/// these words.
pub open spec fn failure_words(f: DerivationFailure) -> Seq<char> {
    match f {
        DerivationFailure::Salt => "Invalid salt: "@,
        DerivationFailure::Params => "Invalid Argon2 params: "@,
        DerivationFailure::Hash => "Key derivation failed: "@,
    }
}

fn crypto_error(e: DerivationError) -> (r: DeepVaultError)
    ensures
        r matches DeepVaultError::Crypto(m) && m@ == failure_words(e.failure) + e.detail@,
{
    let mut out: Vec<char> = Vec::new();
    match e.failure {
        DerivationFailure::Salt => {
            push_str(&mut out, "Invalid salt: ");
        },
        DerivationFailure::Params => {
            push_str(&mut out, "Invalid Argon2 params: ");
        },
        DerivationFailure::Hash => {
            push_str(&mut out, "Key derivation failed: ");
        },
    }
    push_str(&mut out, e.detail.as_str());
    DeepVaultError::Crypto(string_of(&out))
}

impl CryptoManager {
    /// A manager with the default configuration: Argon2id, the default
    /// costs, a fresh random salt of 16 bytes, and the header file
    /// `.dv_meta`.
    pub fn new() -> (r: Result<Self, DeepVaultError>)
        ensures
            r is Ok,
            r->Ok_0@.algorithm == "Argon2id"@,
            r->Ok_0@.kdf_params == (KeyDerivation { memory: 65536, iterations: 3, parallelism: 1 }),
            r->Ok_0@.salt.len() == 16,
            usable_salt_length(r->Ok_0@.salt.len()),
            r->Ok_0@.header_file == ".dv_meta"@,
    {
        let salt = Self::generate_salt();
        Ok(
            CryptoManager {
                config: CryptoConfig {
                    algorithm: "Argon2id".to_owned(),
                    kdf_params: KeyDerivation::default(),
                    salt,
                    header_file: ".dv_meta".to_owned(),
                },
            },
        )
    }

    /// A manager with the configuration `config`.
    pub fn with_config(config: CryptoConfig) -> (m: Self)
        ensures
            m@ == config@,
    {
        CryptoManager { config }
    }

    /// A random salt of 16 bytes.
    fn generate_salt() -> (salt: Vec<u8>)
        ensures
            salt@.len() == 16,
    {
        random_bytes(16)
    }

    /// Derives the key of `password` with Argon2id under the configured salt
    /// and costs. Fails with a `Crypto` error where the salt has fewer than
    /// 3 or more than 48 bytes, where the costs are not supported, or where
    /// the hashing fails.
    pub fn derive_key(&self, password: &str) -> (r: Result<Vec<u8>, DeepVaultError>)
        ensures
            match derived_key(password@, self@.salt, self@.kdf_params) {
                Ok(h) => r is Ok && r->Ok_0@ == h && h.len() == 32,
                Err(f) => r is Err && (r->Err_0 matches DeepVaultError::Crypto(m) && failure_words(
                    f,
                ).is_prefix_of(m@)),
            },
    {
        match derive_raw(password, &self.config.salt, &self.config.kdf_params) {
            Ok(h) => Ok(h),
            Err(e) => {
                let ghost words = failure_words(e.failure);
                let ghost detail = e.detail@;
                let err = crypto_error(e);
                assert(words.is_prefix_of(words + detail)) by {
                    assert((words + detail).take(words.len() as int) =~= words);
                }
                Err(err)
            },
        }
    }

    /// Derives the key of `password` and says whether it is `derived_key`.
    /// Fails as `derive_key` does.
    pub fn verify_password(&self, password: &str, derived_key: &[u8]) -> (r: Result<
        bool,
        DeepVaultError,
    >)
        ensures
            match self::derived_key(password@, self@.salt, self@.kdf_params) {
                Ok(h) => r is Ok && r->Ok_0 == (h == derived_key@),
                Err(f) => r is Err && (r->Err_0 matches DeepVaultError::Crypto(m) && failure_words(
                    f,
                ).is_prefix_of(m@)),
            },
    {
        match self.derive_key(password) {
            Ok(h) => Ok(constant_time_eq(h.as_slice(), derived_key)),
            Err(e) => Err(e),
        }
    }

    /// The header metadata of the configuration, made at the time
    /// `created_at`.
    pub fn header_metadata_at(&self, created_at: String) -> (m: HeaderMetadata)
        ensures
            m.algorithm@ == self@.algorithm,
            m.kdf_params == self@.kdf_params,
            m.salt@ == hex_lower(self@.salt),
            m.version@ == crate::VERSION@,
            m.created_at@ == created_at@,
    {
        HeaderMetadata {
            algorithm: self.config.algorithm.clone(),
            kdf_params: self.config.kdf_params,
            salt: encode_hex(self.config.salt.as_slice()),
            version: crate::VERSION.to_owned(),
            created_at,
        }
    }

    /// The header metadata of the configuration, made now.
    pub fn generate_header_metadata(&self) -> (r: Result<HeaderMetadata, DeepVaultError>)
        ensures
            r is Ok,
            r->Ok_0.algorithm@ == self@.algorithm,
            r->Ok_0.kdf_params == self@.kdf_params,
            r->Ok_0.salt@ == hex_lower(self@.salt),
            r->Ok_0.version@ == crate::VERSION@,
    {
        Ok(self.header_metadata_at(now_rfc3339()))
    }

    /// The current configuration.
    pub fn config(&self) -> (c: &CryptoConfig)
        ensures
            c@ == self@,
    {
        &self.config
    }

    /// Replaces the configuration.
    pub fn update_config(&mut self, config: CryptoConfig)
        ensures
            final(self)@ == config@,
    {
        self.config = config;
    }
}

impl Default for CryptoManager {
    /// A manager with the default configuration and a fresh random salt.
    fn default() -> (m: Self)
        ensures
            m@.algorithm == "Argon2id"@,
            m@.kdf_params == (KeyDerivation { memory: 65536, iterations: 3, parallelism: 1 }),
            m@.salt.len() == 16,
            m@.header_file == ".dv_meta"@,
    {
        CryptoManager {
            config: CryptoConfig {
                algorithm: "Argon2id".to_owned(),
                kdf_params: KeyDerivation::default(),
                salt: Self::generate_salt(),
                header_file: ".dv_meta".to_owned(),
            },
        }
    }
}

} // verus!
