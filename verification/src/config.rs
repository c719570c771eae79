//! Configuration of the application.

use vstd::prelude::*;
use std::path::PathBuf;
use crate::crypto::KeyDerivation;
use crate::error::DeepVaultError;
use crate::paths::joined_path;
use crate::paths::path_from_text;
use crate::paths::path_join;
use crate::paths::path_of;
use crate::text::chars_of;
use crate::text::same_chars;

verus! {

/// Application configuration.
#[derive(Clone, Debug)]
pub struct AppConfig {
    pub security: SecurityConfig,
    pub ui: UiConfig,
    pub paths: PathConfig,
}

/// Security configuration.
#[derive(Clone, Debug)]
pub struct SecurityConfig {
    pub default_algorithm: String,
    pub default_kdf_params: KeyDerivation,
    pub enable_hidden_volumes: bool,
    /// Seconds.
    pub auto_unmount_timeout: u64,
    pub secure_wipe_passes: u32,
}

/// UI configuration.
#[derive(Clone, Debug)]
pub struct UiConfig {
    pub theme: String,
    pub language: String,
    pub show_advanced_options: bool,
    pub confirm_destructive_actions: bool,
}

/// Path configuration.
#[derive(Clone, Debug)]
pub struct PathConfig {
    pub config_dir: PathBuf,
    pub log_dir: PathBuf,
    pub temp_dir: PathBuf,
}

impl Default for SecurityConfig {
    fn default() -> (c: Self)
        ensures
            c.default_algorithm@ == "Argon2id"@,
            c.default_kdf_params == (KeyDerivation { memory: 65536, iterations: 3, parallelism: 1 }),
            c.enable_hidden_volumes,
            c.auto_unmount_timeout == 300,
            c.secure_wipe_passes == 3,
    {
        SecurityConfig {
            default_algorithm: "Argon2id".to_owned(),
            default_kdf_params: KeyDerivation::default(),
            enable_hidden_volumes: true,
            auto_unmount_timeout: 300,
            secure_wipe_passes: 3,
        }
    }
}

impl Default for UiConfig {
    fn default() -> (c: Self)
        ensures
            c.theme@ == "dark"@,
            c.language@ == "fr"@,
            !c.show_advanced_options,
            c.confirm_destructive_actions,
    {
        UiConfig {
            theme: "dark".to_owned(),
            language: "fr".to_owned(),
            show_advanced_options: false,
            confirm_destructive_actions: true,
        }
    }
}

/// An algorithm name that the configuration may hold.
pub open spec fn is_known_algorithm(name: Seq<char>) -> bool {
    name == "Argon2id"@ || name == "Argon2i"@ || name == "Argon2d"@
}

/// What is wrong with a security configuration, if anything: the first of
/// a zero timeout, a zero number of wipe passes, an unknown algorithm.
pub open spec fn config_problem(timeout: u64, passes: u32, algorithm: Seq<char>) -> Option<
    Seq<char>,
> {
    if timeout == 0 {
        Some("Auto unmount timeout cannot be zero"@)
    } else if passes == 0 {
        Some("Secure wipe passes cannot be zero"@)
    } else if !is_known_algorithm(algorithm) {
        Some("Invalid default algorithm"@)
    } else {
        None
    }
}

/// The directory that stands for a base directory which the platform does
/// not name: the current one.
pub open spec fn base_or_here(base: Option<PathBuf>) -> PathBuf {
    match base {
        Some(p) => p,
        None => path_of("."@),
    }
}

impl PathConfig {
    /// The directories of the application below the base directories of the
    /// platform: `deepvault` in the directory for configuration,
    /// `deepvault/logs` in the directory for caches, and `deepvault` in the
    /// directory for temporary files. A base directory that the platform
    /// does not name is taken to be the current directory.
    pub fn from_base_dirs(
        config_base: Option<PathBuf>,
        cache_base: Option<PathBuf>,
        temp_base: PathBuf,
    ) -> (paths: Self)
        ensures
            paths.config_dir == joined_path(base_or_here(config_base), "deepvault"@),
            paths.log_dir == joined_path(
                joined_path(base_or_here(cache_base), "deepvault"@),
                "logs"@,
            ),
            paths.temp_dir == joined_path(temp_base, "deepvault"@),
    {
        let config_base = match config_base {
            Some(p) => p,
            None => path_from_text("."),
        };
        let cache_base = match cache_base {
            Some(p) => p,
            None => path_from_text("."),
        };
        PathConfig {
            config_dir: path_join(&config_base, "deepvault"),
            log_dir: path_join(&path_join(&cache_base, "deepvault"), "logs"),
            temp_dir: path_join(&temp_base, "deepvault"),
        }
    }
}

impl AppConfig {
    /// The path of the configuration file: `config.json` in the directory
    /// for configuration of `paths`.
    pub fn default_config_path(paths: &PathConfig) -> (p: PathBuf)
        ensures
            p == joined_path(paths.config_dir, "config.json"@),
    {
        path_join(&paths.config_dir, "config.json")
    }


    /// The default configuration, with the directories `paths`.
    pub fn with_paths(paths: PathConfig) -> (c: Self)
        ensures
            c.paths == paths,
            c.security.default_algorithm@ == "Argon2id"@,
            c.security.default_kdf_params == (KeyDerivation {
                memory: 65536,
                iterations: 3,
                parallelism: 1,
            }),
            c.security.enable_hidden_volumes,
            c.security.auto_unmount_timeout == 300,
            c.security.secure_wipe_passes == 3,
            c.ui.theme@ == "dark"@,
            c.ui.language@ == "fr"@,
            !c.ui.show_advanced_options,
            c.ui.confirm_destructive_actions,
    {
        AppConfig { security: SecurityConfig::default(), ui: UiConfig::default(), paths }
    }

    /// Checks the configuration: fails with a `Config` error that says what
    /// is wrong, where something is.
    pub fn validate(&self) -> (r: Result<(), DeepVaultError>)
        ensures
            match config_problem(
                self.security.auto_unmount_timeout,
                self.security.secure_wipe_passes,
                self.security.default_algorithm@,
            ) {
                None => r is Ok,
                Some(m) => r is Err && (r->Err_0 matches DeepVaultError::Config(s) && s@ == m),
            },
    {
        if self.security.auto_unmount_timeout == 0 {
            return Err(DeepVaultError::Config("Auto unmount timeout cannot be zero".to_owned()));
        }
        if self.security.secure_wipe_passes == 0 {
            return Err(DeepVaultError::Config("Secure wipe passes cannot be zero".to_owned()));
        }
        let name = chars_of(self.security.default_algorithm.as_str());
        let known = same_chars(&name, &chars_of("Argon2id")) || same_chars(
            &name,
            &chars_of("Argon2i"),
        ) || same_chars(&name, &chars_of("Argon2d"));
        if !known {
            return Err(DeepVaultError::Config("Invalid default algorithm".to_owned()));
        }
        Ok(())
    }
}

} // verus!
