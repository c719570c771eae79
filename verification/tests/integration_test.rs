use deepvault_core::crypto::{CryptoConfig, CryptoManager, KeyDerivation};
use deepvault_core::error::DeepVaultError;
use deepvault_core::paths::Platform;
use deepvault_core::utils::{format_bytes, generate_random_string, is_valid_device_path, validate_password};
use deepvault_core::wipe::{WipeManager, WipeOptions, WipePattern, OverwritePass};
use std::path::PathBuf;

#[test]
fn test_crypto_manager_creation() {
    let crypto_manager = CryptoManager::new().unwrap();
    let config = crypto_manager.config();

    assert_eq!(config.algorithm, "Argon2id");
    assert_eq!(config.kdf_params.memory, 65536);
    assert_eq!(config.kdf_params.iterations, 3);
    assert_eq!(config.kdf_params.parallelism, 1);
}

#[test]
fn test_password_validation() {
    let valid_password = "ValidPass123!";
    assert!(validate_password(valid_password).is_ok());

    let short_password = "Short1!";
    assert!(validate_password(short_password).is_err());

    let no_upper = "validpass123!";
    assert!(validate_password(no_upper).is_err());

    let no_digit = "ValidPassword!";
    assert!(validate_password(no_digit).is_err());

    let no_special = "ValidPassword123";
    assert!(validate_password(no_special).is_err());
}

#[test]
fn test_wipe_options() {
    let options = WipeOptions::default();

    assert_eq!(options.passes, 3);
    assert_eq!(options.pattern, WipePattern::DoD5220_22M);
    assert!(!options.header_only);
}

#[test]
fn test_utils() {
    assert_eq!(format_bytes(0), "0 B");
    assert_eq!(format_bytes(1024), "1.0 KB");
    assert_eq!(format_bytes(1024 * 1024), "1.0 MB");
    assert_eq!(format_bytes(1024 * 1024 * 1024), "1.0 GB");

    let random_string = generate_random_string(16).unwrap();
    assert_eq!(random_string.len(), 16);

    let valid_path = PathBuf::from("/dev/sdb");
    let invalid_path = PathBuf::from("/invalid/path");

    assert!(is_valid_device_path(&valid_path, Platform::Linux));
    assert!(!is_valid_device_path(&invalid_path, Platform::Linux));
}

fn small_manager(salt: Vec<u8>) -> CryptoManager {
    CryptoManager::with_config(CryptoConfig {
        algorithm: "Argon2id".to_string(),
        kdf_params: KeyDerivation { memory: 64, iterations: 1, parallelism: 1 },
        salt,
        header_file: ".dv_meta".to_string(),
    })
}

#[test]
fn key_derivation_with_a_salt_of_twelve_bytes() {
    let manager = small_manager(vec![1, 2, 3, 4, 5, 6, 7, 8, 9, 10, 11, 12]);
    let password = "TestPassword123!";

    let key = manager.derive_key(password).unwrap();
    assert_eq!(key.len(), 32);
    // the same as Argon2id on the raw salt bytes
    let params = argon2::Params::new(64, 1, 1, Some(32)).unwrap();
    let hasher = argon2::Argon2::new(argon2::Algorithm::Argon2id, argon2::Version::V0x13, params);
    let mut expected = [0u8; 32];
    hasher
        .hash_password_into(password.as_bytes(), &[1, 2, 3, 4, 5, 6, 7, 8, 9, 10, 11, 12], &mut expected)
        .unwrap();
    assert_eq!(key, expected.to_vec());
    assert_eq!(
        key,
        vec![
            74, 151, 3, 203, 133, 113, 33, 183, 41, 217, 174, 129, 228, 44, 137, 26, 207, 180, 11, 82, 14,
            221, 31, 198, 52, 105, 85, 225, 182, 208, 205, 13
        ]
    );
    assert_eq!(manager.derive_key(password).unwrap(), key);

    assert!(manager.verify_password(password, &key).unwrap());
    assert!(!manager.verify_password("WrongPassword", &key).unwrap());
    assert!(!manager.verify_password(password, &key[..31]).unwrap());
    assert!(!manager.verify_password(password, &[]).unwrap());
}

#[test]
fn test_key_derivation() {
    let crypto_manager = CryptoManager::new().unwrap();
    let password = "TestPassword123!";

    let key = crypto_manager.derive_key(password).unwrap();
    assert_eq!(key.len(), 32); // 256 bits

    let is_valid = crypto_manager.verify_password(password, &key).unwrap();
    assert!(is_valid);

    let is_invalid = crypto_manager.verify_password("WrongPassword", &key).unwrap();
    assert!(!is_invalid);
}

#[test]
fn key_derivation_by_the_length_of_the_salt() {
    let password = "TestPassword123!";
    let params = argon2::Params::new(64, 1, 1, Some(32)).unwrap();
    let hasher = argon2::Argon2::new(argon2::Algorithm::Argon2id, argon2::Version::V0x13, params);
    for len in 0..=60usize {
        let salt: Vec<u8> = (0..len).map(|i| (i * 29 + len) as u8).collect();
        let outcome = small_manager(salt.clone()).derive_key(password);
        if len < 3 || len > 48 {
            match outcome {
                Err(DeepVaultError::Crypto(m)) => assert!(m.starts_with("Invalid salt: "), "{len}: {m}"),
                other => panic!("{len}: {other:?}"),
            }
        } else if len < 8 {
            // a salt text, but too short a salt for the hashing
            match outcome {
                Err(DeepVaultError::Crypto(m)) => {
                    assert!(m.starts_with("Key derivation failed: "), "{len}: {m}")
                }
                other => panic!("{len}: {other:?}"),
            }
        } else {
            // the same as Argon2id on the raw salt bytes
            let mut expected = [0u8; 32];
            hasher.hash_password_into(password.as_bytes(), &salt, &mut expected).unwrap();
            assert_eq!(outcome.unwrap(), expected.to_vec(), "{len}");
        }
    }
}

#[test]
fn key_derivation_refuses_unsupported_costs() {
    for kdf in [
        KeyDerivation { memory: 7, iterations: 1, parallelism: 1 },
        KeyDerivation { memory: 15, iterations: 1, parallelism: 2 },
        KeyDerivation { memory: 64, iterations: 0, parallelism: 1 },
        KeyDerivation { memory: 64, iterations: 1, parallelism: 0 },
        KeyDerivation { memory: u32::MAX, iterations: 1, parallelism: 0x100_0000 },
        KeyDerivation { memory: u32::MAX, iterations: 1, parallelism: u32::MAX },
    ] {
        assert!(!kdf.is_supported());
        let manager = CryptoManager::with_config(CryptoConfig {
            algorithm: "Argon2id".to_string(),
            kdf_params: kdf,
            salt: vec![0; 12],
            header_file: ".dv_meta".to_string(),
        });
        match manager.derive_key("pw") {
            Err(DeepVaultError::Crypto(m)) => assert!(m.starts_with("Invalid Argon2 params: "), "{m}"),
            other => panic!("{other:?}"),
        }
    }
    assert!(KeyDerivation { memory: 8, iterations: 1, parallelism: 1 }.is_supported());
    assert!(KeyDerivation { memory: 16, iterations: 1, parallelism: 2 }.is_supported());
}

#[test]
fn key_derivation_fails_in_hashing_on_a_short_salt() {
    // three bytes make an accepted text of four characters, which Argon2
    // finds too short
    let manager = small_manager(vec![1, 2, 3]);
    match manager.derive_key("pw") {
        Err(DeepVaultError::Crypto(m)) => assert!(m.starts_with("Key derivation failed: "), "{m}"),
        other => panic!("{other:?}"),
    }
}

#[test]
fn header_metadata_fields() {
    let mut manager = small_manager(vec![0x00, 0x0f, 0xa0, 0xff]);
    let meta = manager.header_metadata_at("2024-01-01T00:00:00+00:00".to_string());
    assert_eq!(meta.algorithm, "Argon2id");
    assert_eq!(meta.kdf_params, KeyDerivation { memory: 64, iterations: 1, parallelism: 1 });
    assert_eq!(meta.salt, "000fa0ff");
    assert_eq!(meta.version, deepvault_core::VERSION);
    assert_eq!(meta.created_at, "2024-01-01T00:00:00+00:00");
    let now = manager.generate_header_metadata().unwrap();
    assert_eq!(now.salt, "000fa0ff");
    assert!(chrono::DateTime::parse_from_rfc3339(&now.created_at).is_ok());
    manager.update_config(CryptoConfig {
        algorithm: "Argon2i".to_string(),
        kdf_params: KeyDerivation::default(),
        salt: vec![],
        header_file: "h".to_string(),
    });
    assert_eq!(manager.config().algorithm, "Argon2i");
    assert_eq!(manager.config().header_file, "h");
    assert_eq!(manager.header_metadata_at(String::new()).salt, "");
}

fn float_format(bytes: u64) -> String {
    const UNITS: &[&str] = &["B", "KB", "MB", "GB", "TB"];
    let mut size = bytes as f64;
    let mut unit_index = 0;
    while size >= 1024.0 && unit_index < UNITS.len() - 1 {
        size /= 1024.0;
        unit_index += 1;
    }
    if unit_index == 0 {
        format!("{} {}", bytes, UNITS[unit_index])
    } else {
        format!("{:.1} {}", size, UNITS[unit_index])
    }
}

#[test]
fn format_bytes_exact_values() {
    assert_eq!(format_bytes(1), "1 B");
    assert_eq!(format_bytes(1023), "1023 B");
    assert_eq!(format_bytes(1536), "1.5 KB");
    // ties go to the even digit
    assert_eq!(format_bytes(1280), "1.2 KB");
    assert_eq!(format_bytes(1792), "1.8 KB");
    assert_eq!(format_bytes(1024 + 51), "1.0 KB");
    assert_eq!(format_bytes(1024 + 52), "1.1 KB");
    assert_eq!(format_bytes(1048575), "1024.0 KB");
    assert_eq!(format_bytes(1099511627776), "1.0 TB");
    assert_eq!(format_bytes(u64::MAX), "16777216.0 TB");
}

#[test]
fn format_bytes_agrees_with_floating_point() {
    let mut samples: Vec<u64> = vec![0, 1, 7, 1023, 1024, 1025, 1280, 1792, u64::MAX, u64::MAX - 1];
    for shift in 0..64u32 {
        let p = 1u64 << shift;
        for delta in [0u64, 1, 2, 3, 51, 52, 511, 512, 513, 1023, 1024, 1025] {
            samples.push(p.wrapping_add(delta));
            samples.push(p.wrapping_sub(delta));
            samples.push((p / 5).wrapping_mul(3).wrapping_add(delta));
            samples.push((p / 20).wrapping_mul(21).wrapping_add(delta));
        }
    }
    let mut x: u64 = 0x9e37_79b9_7f4a_7c15;
    for _ in 0..20000 {
        x ^= x << 13;
        x ^= x >> 7;
        x ^= x << 17;
        samples.push(x);
        samples.push(x >> (x % 64));
    }
    for bytes in samples {
        assert_eq!(format_bytes(bytes), float_format(bytes), "{bytes}");
    }
}

#[test]
fn format_bytes_near_rounding_boundaries_of_large_counts() {
    // counts of more than 53 bits near a decimal boundary of the TB value
    let tb: u128 = 1 << 40;
    for whole in [9000u128, 12345, 16000, 1 << 23, (1 << 24) - 2] {
        for tenth in 0..10u128 {
            let boundary = (whole * 20 + tenth * 2 + 1) * tb / 20;
            for delta in -2100i128..=2100 {
                let bytes = boundary as i128 + delta;
                if bytes >= 0 && bytes <= u64::MAX as i128 {
                    let bytes = bytes as u64;
                    assert_eq!(format_bytes(bytes), float_format(bytes), "{bytes}");
                }
            }
        }
    }
}

#[test]
fn password_validation_messages() {
    let message = |p: &str| match validate_password(p) {
        Err(DeepVaultError::InvalidInput(m)) => m,
        other => panic!("{other:?}"),
    };
    assert_eq!(message(""), "Password must be at least 8 characters long");
    assert_eq!(message("Aa1!aaa"), "Password must be at least 8 characters long");
    assert!(validate_password("Aa1!aaaa").is_ok());
    let long = format!("Aa1!{}", "a".repeat(124));
    assert_eq!(long.len(), 128);
    assert!(validate_password(&long).is_ok());
    let longer = format!("{long}a");
    assert_eq!(message(&longer), "Password must be less than 128 characters long");
    // the length is counted in bytes: four characters of two bytes each
    assert!(message("ÀéÀé").starts_with("Password must contain"));
    assert!(validate_password("Àé1!éé").is_ok());
    assert_eq!(
        message("ValidPassword123"),
        "Password must contain at least one uppercase letter, lowercase letter, digit, and special character"
    );
    for special in "!@#$%^&*()_+-=[]{}|;:,.<>?".chars() {
        assert!(validate_password(&format!("Passw0rd{special}")).is_ok());
    }
    for other in "~`'\"\\/ ".chars() {
        assert!(validate_password(&format!("Passw0rd{other}")).is_err());
    }
}

#[test]
fn random_strings_are_letters_and_digits() {
    assert_eq!(generate_random_string(0).unwrap(), "");
    let s = generate_random_string(500).unwrap();
    assert_eq!(s.chars().count(), 500);
    assert!(s.chars().all(|c| c.is_ascii_alphanumeric()));
    assert_ne!(generate_random_string(64).unwrap(), generate_random_string(64).unwrap());
}

#[test]
fn device_paths_by_platform() {
    let p = |s: &str| PathBuf::from(s);
    assert!(is_valid_device_path(&p("/dev/"), Platform::Linux));
    assert!(!is_valid_device_path(&p("/dev"), Platform::Linux));
    assert!(is_valid_device_path(&p("\\\\.\\PhysicalDrive1"), Platform::Windows));
    assert!(!is_valid_device_path(&p("/dev/sdb"), Platform::Windows));
    assert!(is_valid_device_path(&p("/dev/disk2"), Platform::MacOs));
    assert!(!is_valid_device_path(&p("/dev/sdb"), Platform::MacOs));
    assert!(!is_valid_device_path(&p("/dev/sdb"), Platform::Other));
}

#[test]
fn wipe_passes_and_buffers() {
    assert_eq!(
        WipeManager::secure_delete_passes(),
        vec![OverwritePass::Fill(0xff), OverwritePass::Fill(0x00), OverwritePass::Random]
    );
    assert_eq!(WipeManager::pattern_buffer(0, &[1]), Vec::<u8>::new());
    assert_eq!(WipeManager::pattern_buffer(5, &[0xff]), vec![0xff; 5]);
    assert_eq!(WipeManager::pattern_buffer(5, &[1, 2]), vec![1, 2, 1, 2, 1]);
    let manager = WipeManager::new(PathBuf::from("/dev/sdb"));
    assert_eq!(manager.device_path(), &PathBuf::from("/dev/sdb"));
}
