use argon2::password_hash::SaltString;
use base64::Engine;
use deepvault_core::crypto::{constant_time_eq, is_salt_text_accepted, KeyDerivation};

#[test]
fn salt_texts_are_accepted_as_the_salt_type_accepts_them() {
    let mut texts: Vec<String> = vec![
        "".into(),
        "abc".into(),
        "abcd".into(),
        "a".repeat(64),
        "a".repeat(65),
        "abc=".into(),
        "ab+/".into(),
        "ab.-".into(),
        "ab c".into(),
        "abcé".into(),
        "ab_d".into(),
        "ABCDEFGHIJKLMNOPQRSTUVWXYZabcdefghijklmnopqrstuvwxyz0123456789+/".into(),
        "ab\ncd".into(),
        "ab,d".into(),
        "ab:d".into(),
        "ab@d".into(),
        "ab[d".into(),
        "ab`d".into(),
        "ab{d".into(),
    ];
    for len in 0..50usize {
        let bytes: Vec<u8> = (0..len).map(|i| (i * 37 + len) as u8).collect();
        texts.push(base64::engine::general_purpose::STANDARD.encode(&bytes));
        texts.push(base64::engine::general_purpose::STANDARD_NO_PAD.encode(&bytes));
    }
    for text in texts {
        assert_eq!(is_salt_text_accepted(&text), SaltString::from_b64(&text).is_ok(), "{text:?}");
    }
}

#[test]
fn the_unpadded_text_of_a_salt() {
    for len in 0..=70usize {
        let bytes: Vec<u8> = (0..len).map(|i| (i * 151 + 3 * len) as u8).collect();
        let text = base64::engine::general_purpose::STANDARD_NO_PAD.encode(&bytes);
        let expected = 4 * (len / 3) + if len % 3 == 0 { 0 } else { len % 3 + 1 };
        assert_eq!(text.chars().count(), expected, "{len}");
        assert!(text.chars().all(|c| c.is_ascii_alphanumeric() || c == '+' || c == '/'), "{text}");
        assert_eq!(SaltString::from_b64(&text).is_ok(), (3..=48).contains(&len), "{len}");
        assert_eq!(is_salt_text_accepted(&text), (3..=48).contains(&len), "{len}");
    }
    let text = base64::engine::general_purpose::STANDARD_NO_PAD.encode([7u8; 16]);
    assert_eq!(text.len(), 22);
    assert!(SaltString::from_b64(&text).is_ok());
}

#[test]
fn costs_are_supported_as_the_parameter_type_accepts_them() {
    let values = [0u32, 1, 2, 7, 8, 9, 15, 16, 17, 64, 0xff_ffff, 0x100_0000, 0x7ff_fff8, u32::MAX];
    for memory in values {
        for iterations in [0u32, 1, 2, u32::MAX] {
            for parallelism in [0u32, 1, 2, 3, 8, 0xff_ffff, 0x100_0000] {
                let kdf = KeyDerivation { memory, iterations, parallelism };
                assert_eq!(
                    kdf.is_supported(),
                    argon2::Params::new(memory, iterations, parallelism, Some(32)).is_ok(),
                    "{kdf:?}"
                );
            }
        }
    }
}

#[test]
fn comparison_of_whole_values() {
    assert!(constant_time_eq(&[], &[]));
    assert!(constant_time_eq(&[1, 2, 3], &[1, 2, 3]));
    assert!(!constant_time_eq(&[1, 2, 3], &[1, 2, 4]));
    assert!(!constant_time_eq(&[0, 2, 3], &[1, 2, 3]));
    assert!(!constant_time_eq(&[1, 2, 3], &[1, 2]));
    assert!(!constant_time_eq(&[1, 2], &[1, 2, 3]));
    assert!(!constant_time_eq(&[], &[0]));
    assert!(!constant_time_eq(&[0x0f], &[0xf0]));
}
