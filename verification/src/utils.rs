//! Utility functions.

use vstd::prelude::*;
use std::path::PathBuf;
use crate::error::DeepVaultError;
use crate::paths::path_text;
use crate::paths::path_to_text;
use crate::paths::Platform;
use crate::text::chars_of;
use crate::text::decimal_of;
use crate::text::digits_of;
use crate::text::push_all;
use crate::text::push_str;
use crate::text::starts_with_chars;
use crate::text::string_of;
use rand::Rng;

verus! {

// ---------------------------------------------------------------------------
// Byte counts
// ---------------------------------------------------------------------------

/// `n / d`, rounded to the nearest whole number, a tie to the even one.
pub open spec fn round_half_even(n: nat, d: nat) -> nat {
    let q = n / d;
    let r = n % d;
    if 2 * r > d || (2 * r == d && q % 2 == 1) {
        q + 1
    } else {
        q
    }
}

/// The distance between neighbouring double-precision numbers around `n`,
/// for `n` of 53 bits and more; 1 below that.
pub open spec fn double_step(n: nat) -> nat
    decreases n,
{
    if n < 0x20_0000_0000_0000 {
        1
    } else {
        2 * double_step(n / 2)
    }
}

/// `n` as a double-precision number: `n` itself up to 53 bits, and beyond
/// that the nearest number of 53 significant bits, a tie to the even one.
pub open spec fn as_double(n: nat) -> nat {
    round_half_even(n, double_step(n)) * double_step(n)
}

/// The unit in which a count is shown: 0 for bytes, then KB, MB, GB, and 4
/// for TB and everything above.
pub open spec fn unit_index(m: nat) -> nat {
    if m < 1024 {
        0
    } else if m < 1048576 {
        1
    } else if m < 1073741824 {
        2
    } else if m < 1099511627776 {
        3
    } else {
        4
    }
}

/// The number of bytes in one unit.
pub open spec fn unit_scale(k: nat) -> nat {
    if k == 0 {
        1
    } else if k == 1 {
        1024
    } else if k == 2 {
        1048576
    } else if k == 3 {
        1073741824
    } else {
        1099511627776
    }
}

/// The name of a unit.
pub open spec fn unit_name(k: nat) -> Seq<char> {
    if k == 0 {
        "B"@
    } else if k == 1 {
        "KB"@
    } else if k == 2 {
        "MB"@
    } else if k == 3 {
        "GB"@
    } else {
        "TB"@
    }
}

/// A byte count in human-readable form. Below 1024 it is the count and
/// `B`. From there on the count is taken as a double-precision number,
/// divided by the unit, and shown with one decimal, rounded to the nearest,
/// a tie to the even digit.
pub open spec fn formatted_bytes(bytes: nat) -> Seq<char> {
    let m = as_double(bytes);
    let k = unit_index(m);
    if k == 0 {
        digits_of(bytes) + " "@ + unit_name(0)
    } else {
        let tenths = round_half_even(m * 10, unit_scale(k));
        digits_of(tenths / 10) + "."@ + digits_of(tenths % 10) + " "@ + unit_name(k)
    }
}

fn double_step_of(n: u64) -> (d: u64)
    ensures
        d as nat == double_step(n as nat),
        1 <= d <= 2048,
{
    let mut d: u64 = 1;
    let mut x: u64 = n;
    while x >= 0x20_0000_0000_0000
        invariant
            double_step(n as nat) == d * double_step(x as nat),
            d == 1 || d == 2 || d == 4 || d == 8 || d == 16 || d == 32 || d == 64 || d == 128 || d
                == 256 || d == 512 || d == 1024 || d == 2048,
            x * d <= n,
        decreases x,
    {
        assert(d < 2048) by (nonlinear_arith)
            requires
                x >= 0x20_0000_0000_0000,
                x * d <= n,
                n <= 0xffff_ffff_ffff_ffff,
                d >= 1,
        ;
        assert((x / 2) * (d * 2) <= x * d) by (nonlinear_arith)
            requires
                d >= 1,
        ;
        assert(d * (2 * double_step((x / 2) as nat)) == (d * 2) * double_step((x / 2) as nat))
            by (nonlinear_arith);
        x = x / 2;
        d = d * 2;
    }
    assert(d * 1 == d);
    d
}

fn round_half_even_of(n: u128, d: u128) -> (q: u128)
    requires
        d > 0,
        n < 0x1_0000_0000_0000_0000_0000,
    ensures
        q as nat == round_half_even(n as nat, d as nat),
        q <= n + 1,
{
    let q = n / d;
    let r = n % d;
    assert(q <= n) by (nonlinear_arith)
        requires
            q == n / d,
            d > 0,
    ;
    if r > d - r || (r == d - r && q % 2 == 1) {
        q + 1
    } else {
        q
    }
}

/// Format bytes to human readable format.
pub fn format_bytes(bytes: u64) -> (s: String)
    ensures
        s@ == formatted_bytes(bytes as nat),
{
    let d = double_step_of(bytes);
    let q = round_half_even_of(bytes as u128, d as u128);
    assert(q * d <= 0x1_0000_0000_0000_0000 * 2048) by (nonlinear_arith)
        requires
            q <= 0x1_0000_0000_0000_0000,
            d <= 2048,
    ;
    let m: u128 = q * (d as u128);
    let mut out: Vec<char> = Vec::new();
    if m < 1024 {
        out = decimal_of(bytes);
        push_str(&mut out, " ");
        push_str(&mut out, "B");
        return string_of(&out);
    }
    let scale: u128 = if m < 1048576 {
        1024
    } else if m < 1073741824 {
        1048576
    } else if m < 1099511627776 {
        1073741824
    } else {
        1099511627776
    };
    assert(m <= 0x1_0000_0000_0000_0800) by (nonlinear_arith)
        requires
            m == q * d,
            q <= bytes + 1,
            q as nat == round_half_even(bytes as nat, d as nat),
            1 <= d <= 2048,
            bytes <= 0xffff_ffff_ffff_ffff,
    ;
    let tenths = round_half_even_of(m * 10, scale);
    assert(tenths / 10 <= 0xffff_ffff_ffff_ffff) by (nonlinear_arith)
        requires
            tenths <= m * 10 + 1,
            m <= 0x1_0000_0000_0000_0800,
            tenths as nat == round_half_even((m * 10) as nat, scale as nat),
            scale >= 1024,
    ;
    out = decimal_of((tenths / 10) as u64);
    push_str(&mut out, ".");
    let frac = decimal_of((tenths % 10) as u64);
    push_all(&mut out, &frac);
    push_str(&mut out, " ");
    if scale == 1024 {
        push_str(&mut out, "KB");
    } else if scale == 1048576 {
        push_str(&mut out, "MB");
    } else if scale == 1073741824 {
        push_str(&mut out, "GB");
    } else {
        push_str(&mut out, "TB");
    }
    string_of(&out)
}

// ---------------------------------------------------------------------------
// Passwords
// ---------------------------------------------------------------------------

/// `char::is_uppercase`: the Unicode property Uppercase, in the Unicode
/// version of the standard library that the program is built with.
pub uninterp spec fn char_is_uppercase(c: char) -> bool;

/// `char::is_lowercase`: the Unicode property Lowercase, in that version.
pub uninterp spec fn char_is_lowercase(c: char) -> bool;

/// `char::is_numeric`: the Unicode general categories Nd, Nl and No, in
/// that version.
pub uninterp spec fn char_is_numeric(c: char) -> bool;

/// `char::is_uppercase`.
#[verifier::external_body]
fn is_uppercase(c: char) -> (r: bool)
    ensures
        r == char_is_uppercase(c),
{
    c.is_uppercase()
}

/// `char::is_lowercase`.
#[verifier::external_body]
fn is_lowercase(c: char) -> (r: bool)
    ensures
        r == char_is_lowercase(c),
{
    c.is_lowercase()
}

/// `char::is_numeric`.
#[verifier::external_body]
fn is_numeric(c: char) -> (r: bool)
    ensures
        r == char_is_numeric(c),
{
    c.is_numeric()
}

/// The characters that count as special in a password.
pub open spec fn special_chars() -> Seq<char> {
    "!@#$%^&*()_+-=[]{}|;:,.<>?"@
}

/// Some character of `s` is upper case.
pub open spec fn has_uppercase(s: Seq<char>) -> bool {
    exists|i: int| 0 <= i < s.len() && char_is_uppercase(#[trigger] s[i])
}

/// Some character of `s` is lower case.
pub open spec fn has_lowercase(s: Seq<char>) -> bool {
    exists|i: int| 0 <= i < s.len() && char_is_lowercase(#[trigger] s[i])
}

/// Some character of `s` is numeric.
pub open spec fn has_numeric(s: Seq<char>) -> bool {
    exists|i: int| 0 <= i < s.len() && char_is_numeric(#[trigger] s[i])
}

/// Some character of `s` is special.
pub open spec fn has_special(s: Seq<char>) -> bool {
    exists|i: int| 0 <= i < s.len() && special_chars().contains(#[trigger] s[i])
}

/// What is wrong with a password, if anything. Its length is that of its
/// UTF-8 encoding, in bytes.
pub open spec fn password_problem(password: Seq<char>) -> Option<Seq<char>> {
    let len = vstd::utf8::encode_utf8(password).len();
    if len < 8 {
        Some("Password must be at least 8 characters long"@)
    } else if len > 128 {
        Some("Password must be less than 128 characters long"@)
    } else if !has_uppercase(password) || !has_lowercase(password) || !has_numeric(password)
        || !has_special(password) {
        Some(
            "Password must contain at least one uppercase letter, lowercase letter, digit, and special character"@,
        )
    } else {
        None
    }
}

fn holds_char(v: &Vec<char>, c: char) -> (r: bool)
    ensures
        r == v@.contains(c),
{
    let mut i: usize = 0;
    while i < v.len()
        invariant
            i <= v.len(),
            forall|j: int| 0 <= j < i ==> v@[j] != c,
        decreases v.len() - i,
    {
        if v[i] == c {
            return true;
        }
        i += 1;
    }
    false
}

/// Validate password strength: 8 to 128 bytes, with an upper-case letter, a
/// lower-case letter, a digit and a special character. Fails with an
/// `InvalidInput` error that says what is wrong.
pub fn validate_password(password: &str) -> (r: Result<(), DeepVaultError>)
    ensures
        match password_problem(password@) {
            None => r is Ok,
            Some(m) => r is Err && (r->Err_0 matches DeepVaultError::InvalidInput(s) && s@ == m),
        },
{
    let len = password.as_bytes().len();
    if len < 8 {
        return Err(
            DeepVaultError::InvalidInput("Password must be at least 8 characters long".to_owned()),
        );
    }
    if len > 128 {
        return Err(
            DeepVaultError::InvalidInput(
                "Password must be less than 128 characters long".to_owned(),
            ),
        );
    }
    let chars = chars_of(password);
    let special = chars_of("!@#$%^&*()_+-=[]{}|;:,.<>?");
    let mut upper = false;
    let mut lower = false;
    let mut digit = false;
    let mut other = false;
    let mut i: usize = 0;
    while i < chars.len()
        invariant
            i <= chars.len(),
            special@ == special_chars(),
            upper == has_uppercase(chars@.take(i as int)),
            lower == has_lowercase(chars@.take(i as int)),
            digit == has_numeric(chars@.take(i as int)),
            other == has_special(chars@.take(i as int)),
        decreases chars.len() - i,
    {
        let c = chars[i];
        let ghost before = chars@.take(i as int);
        let ghost after = chars@.take(i + 1);
        let u = is_uppercase(c);
        let l = is_lowercase(c);
        let n = is_numeric(c);
        let s = holds_char(&special, c);
        proof {
            assert(after[i as int] == c);
            assert(forall|k: int| 0 <= k < before.len() ==> before[k] == after[k]);
            if has_uppercase(before) {
                let k = choose|k: int| 0 <= k < before.len() && char_is_uppercase(#[trigger] before[k]);
                assert(char_is_uppercase(after[k]));
            }
            if has_lowercase(before) {
                let k = choose|k: int| 0 <= k < before.len() && char_is_lowercase(#[trigger] before[k]);
                assert(char_is_lowercase(after[k]));
            }
            if has_numeric(before) {
                let k = choose|k: int| 0 <= k < before.len() && char_is_numeric(#[trigger] before[k]);
                assert(char_is_numeric(after[k]));
            }
            if has_special(before) {
                let k = choose|k: int|
                    0 <= k < before.len() && special_chars().contains(#[trigger] before[k]);
                assert(special_chars().contains(after[k]));
            }
        }
        upper = upper || u;
        lower = lower || l;
        digit = digit || n;
        other = other || s;
        i += 1;
    }
    assert(chars@.take(chars.len() as int) =~= chars@);
    if !upper || !lower || !digit || !other {
        return Err(
            DeepVaultError::InvalidInput(
                "Password must contain at least one uppercase letter, lowercase letter, digit, and special character".to_owned(),
            ),
        );
    }
    Ok(())
}

// ---------------------------------------------------------------------------
// Random strings
// ---------------------------------------------------------------------------

/// The characters that a random string is made of.
pub open spec fn random_alphabet() -> Seq<char> {
    "ABCDEFGHIJKLMNOPQRSTUVWXYZabcdefghijklmnopqrstuvwxyz0123456789"@
}

/// `rand::thread_rng().gen_range(0..bound)`: a number below `bound` from
/// the thread's random number generator. An empty range is left out: the
/// call panics on it.
#[verifier::external_body]
fn random_below(bound: usize) -> (n: usize)
    requires
        bound > 0,
    ensures
        n < bound,
{
    rand::thread_rng().gen_range(0..bound)
}

/// Generate a random string of `length` letters and digits.
pub fn generate_random_string(length: usize) -> (r: Result<String, DeepVaultError>)
    ensures
        r is Ok,
        r->Ok_0@.len() == length,
        forall|i: int| 0 <= i < length ==> random_alphabet().contains(#[trigger] r->Ok_0@[i]),
{
    let alphabet = chars_of("ABCDEFGHIJKLMNOPQRSTUVWXYZabcdefghijklmnopqrstuvwxyz0123456789");
    let mut out: Vec<char> = Vec::new();
    if alphabet.len() == 0 {
        proof {
            reveal_strlit("ABCDEFGHIJKLMNOPQRSTUVWXYZabcdefghijklmnopqrstuvwxyz0123456789");
        }
        return Ok(string_of(&out));
    }
    let mut i: usize = 0;
    while i < length
        invariant
            i <= length,
            alphabet@ == random_alphabet(),
            alphabet@.len() > 0,
            out@.len() == i,
            forall|j: int| 0 <= j < i ==> random_alphabet().contains(#[trigger] out@[j]),
        decreases length - i,
    {
        let k = random_below(alphabet.len());
        out.push(alphabet[k]);
        assert(random_alphabet().contains(alphabet@[k as int]));
        i += 1;
    }
    Ok(string_of(&out))
}

// ---------------------------------------------------------------------------
// Device paths
// ---------------------------------------------------------------------------

/// What a device path begins with on a platform; `None` where the platform
/// has no device paths that the library knows.
pub open spec fn device_prefix(platform: Platform) -> Option<Seq<char>> {
    match platform {
        Platform::Linux => Some("/dev/"@),
        Platform::Windows => Some("\\\\.\\PhysicalDrive"@),
        Platform::MacOs => Some("/dev/disk"@),
        Platform::Other => None,
    }
}

/// Check if a path is a valid device path on `platform`.
pub fn is_valid_device_path(path: &PathBuf, platform: Platform) -> (r: bool)
    ensures
        r == match device_prefix(platform) {
            Some(p) => p.is_prefix_of(path_text(*path)),
            None => false,
        },
{
    let text = chars_of(path_to_text(path).as_str());
    match platform {
        Platform::Linux => starts_with_chars(&text, &chars_of("/dev/")),
        Platform::Windows => starts_with_chars(&text, &chars_of("\\\\.\\PhysicalDrive")),
        Platform::MacOs => starts_with_chars(&text, &chars_of("/dev/disk")),
        Platform::Other => false,
    }
}

} // verus!
