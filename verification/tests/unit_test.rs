use deepvault_core::config::{AppConfig, PathConfig};
use deepvault_core::crypto::{CryptoConfig, KeyDerivation};
use deepvault_core::error::DeepVaultError;
use deepvault_core::mount::MountStatus;
use deepvault_core::partition::PartitionType;
use std::path::PathBuf;

fn default_config() -> AppConfig {
    AppConfig::with_paths(PathConfig::from_base_dirs(None, None, PathBuf::from("/tmp")))
}

#[test]
fn directories_of_the_application() {
    let paths = PathConfig::from_base_dirs(
        Some(PathBuf::from("/home/u/.config")),
        Some(PathBuf::from("/home/u/.cache")),
        PathBuf::from("/tmp"),
    );
    assert_eq!(paths.config_dir, PathBuf::from("/home/u/.config/deepvault"));
    assert_eq!(paths.log_dir, PathBuf::from("/home/u/.cache/deepvault/logs"));
    assert_eq!(paths.temp_dir, PathBuf::from("/tmp/deepvault"));
    assert_eq!(AppConfig::default_config_path(&paths), PathBuf::from("/home/u/.config/deepvault/config.json"));
    let paths = PathConfig::from_base_dirs(None, None, PathBuf::from("t"));
    assert_eq!(paths.config_dir, PathBuf::from("./deepvault"));
    assert_eq!(paths.log_dir, PathBuf::from("./deepvault/logs"));
    assert_eq!(paths.temp_dir, PathBuf::from("t/deepvault"));
}

#[test]
fn test_key_derivation_params() {
    let params = KeyDerivation::default();
    assert_eq!(params.memory, 65536);
    assert_eq!(params.iterations, 3);
    assert_eq!(params.parallelism, 1);
}

#[test]
fn test_crypto_config_creation() {
    let config = CryptoConfig {
        algorithm: "Argon2id".to_string(),
        kdf_params: KeyDerivation::default(),
        salt: vec![1, 2, 3, 4],
        header_file: ".dv_meta".to_string(),
    };

    assert_eq!(config.algorithm, "Argon2id");
    assert_eq!(config.salt, vec![1, 2, 3, 4]);
    assert_eq!(config.header_file, ".dv_meta");
}

#[test]
fn test_mount_status() {
    let mounted = MountStatus::Mounted(PathBuf::from("/mnt/test"));
    let unmounted = MountStatus::Unmounted;
    let error = MountStatus::Error("Test error".to_string());

    assert!(matches!(mounted, MountStatus::Mounted(_)));
    assert!(matches!(unmounted, MountStatus::Unmounted));
    assert!(matches!(error, MountStatus::Error(_)));
}

#[test]
fn test_partition_type() {
    let public = PartitionType::Public;
    let encrypted = PartitionType::Encrypted;
    let hidden = PartitionType::Hidden;

    assert_eq!(public, PartitionType::Public);
    assert_eq!(encrypted, PartitionType::Encrypted);
    assert_eq!(hidden, PartitionType::Hidden);
}

#[test]
fn test_app_config_default() {
    let config = default_config();

    assert_eq!(config.security.default_algorithm, "Argon2id");
    assert_eq!(config.ui.theme, "dark");
    assert_eq!(config.ui.language, "fr");
    assert!(config.security.enable_hidden_volumes);
    assert!(config.ui.confirm_destructive_actions);
}

#[test]
fn test_app_config_validation() {
    let mut config = default_config();

    assert!(config.validate().is_ok());

    config.security.auto_unmount_timeout = 0;
    assert!(config.validate().is_err());

    config.security.auto_unmount_timeout = 300;

    config.security.secure_wipe_passes = 0;
    assert!(config.validate().is_err());

    config.security.secure_wipe_passes = 3;

    config.security.default_algorithm = "InvalidAlgo".to_string();
    assert!(config.validate().is_err());
}

#[test]
fn test_error_types() {
    let device_error = DeepVaultError::Device("Test error".to_string());
    let crypto_error = DeepVaultError::Crypto("Test error".to_string());
    let io_error = DeepVaultError::Io(std::io::Error::new(std::io::ErrorKind::NotFound, "Test"));

    assert!(matches!(device_error, DeepVaultError::Device(_)));
    assert!(matches!(crypto_error, DeepVaultError::Crypto(_)));
    assert!(matches!(io_error, DeepVaultError::Io(_)));
}

#[test]
fn config_validation_says_what_is_wrong() {
    let mut config = default_config();
    config.security.auto_unmount_timeout = 0;
    config.security.secure_wipe_passes = 0;
    match config.validate() {
        Err(DeepVaultError::Config(m)) => assert_eq!(m, "Auto unmount timeout cannot be zero"),
        other => panic!("{other:?}"),
    }
    config.security.auto_unmount_timeout = 1;
    match config.validate() {
        Err(DeepVaultError::Config(m)) => assert_eq!(m, "Secure wipe passes cannot be zero"),
        other => panic!("{other:?}"),
    }
    config.security.secure_wipe_passes = 1;
    for name in ["Argon2id", "Argon2i", "Argon2d"] {
        config.security.default_algorithm = name.to_string();
        assert!(config.validate().is_ok());
    }
    config.security.default_algorithm = "argon2id".to_string();
    match config.validate() {
        Err(DeepVaultError::Config(m)) => assert_eq!(m, "Invalid default algorithm"),
        other => panic!("{other:?}"),
    }
}

#[test]
fn error_messages() {
    assert_eq!(DeepVaultError::Device("x".to_string()).message(), "Device error: x");
    assert_eq!(DeepVaultError::Crypto("x".to_string()).message(), "Cryptographic error: x");
    assert_eq!(DeepVaultError::Partition("x".to_string()).message(), "Partition error: x");
    assert_eq!(DeepVaultError::Mount("x".to_string()).message(), "Mount error: x");
    assert_eq!(DeepVaultError::Config("x".to_string()).message(), "Configuration error: x");
    assert_eq!(DeepVaultError::Permission("x".to_string()).message(), "Permission denied: x");
    assert_eq!(DeepVaultError::System("x".to_string()).message(), "System error: x");
    assert_eq!(DeepVaultError::InvalidInput("x".to_string()).message(), "Invalid input: x");
    assert_eq!(DeepVaultError::Cancelled.message(), "Operation cancelled");
    assert_eq!(DeepVaultError::NotImplemented("x".to_string()).message(), "Not implemented: x");
    let io = std::io::Error::new(std::io::ErrorKind::NotFound, "Test");
    assert_eq!(DeepVaultError::Io(io).message(), "IO error: Test");
    let json = serde_json::from_str::<serde_json::Value>("{").unwrap_err();
    let text = json.to_string();
    assert_eq!(DeepVaultError::Serialization(json).message(), format!("Serialization error: {text}"));
}
