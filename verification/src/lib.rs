//! DeepVault core: password-gated access to a concealed partition on
//! removable media.

use vstd::prelude::*;

pub mod config;
pub mod credential;
pub mod crypto;
pub mod device;
pub mod discovery;
pub mod diskpart;
pub mod error;
pub mod files;
pub mod lifecycle;
pub mod listing;
pub mod mount;
pub mod mounts;
pub mod partition;
pub mod paths;
pub mod retry;
pub mod session;
pub mod store;
pub mod text;
pub mod utils;
pub mod wipe;

pub use config::{AppConfig, SecurityConfig};
pub use crypto::{CryptoConfig, KeyDerivation};
pub use device::{DeviceManager, UsbDevice};
pub use error::DeepVaultError;
pub use mount::{MountManager, MountStatus};
pub use partition::{PartitionManager, PartitionType};

verus! {

/// The version of the library.
pub const VERSION: &'static str = "0.1.0";

/// The name of the application.
pub const APP_NAME: &'static str = "DeepVault";

} // verus!
