[package]
name = "deepvault_core"
version = "0.1.0"
edition = "2021"
publish = false

[dependencies]
argon2 = "=0.5.3"
base64 = "=0.22.1"
chrono = "=0.4.45"
clap = { version = "=4.6.7", features = ["derive"] }
dirs = "=5.0.1"
env_logger = "=0.11.11"
hex = "=0.4.3"
lazy_static = "=1.5.1"
log = "=0.4.34"
rand = "=0.8.8"
serde = { version = "=1.0.229", features = ["derive"] }
serde_json = "=1.0.154"
sysinfo = "=0.29.11"
thiserror = "=1.0.69"
tokio = { version = "=1.54.1", features = ["rt-multi-thread", "macros", "time"] }
winapi = { version = "=0.3.9", features = ["handleapi", "processthreadsapi", "securitybaseapi", "winnt"] }
