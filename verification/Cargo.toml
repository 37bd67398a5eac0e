[package]
name = "hyperlane_cli"
version = "0.1.0"
edition = "2021"
publish = false

[dependencies]
url = "=2.5.8"
ethers = { version = "=2.0.14", default-features = false }
ethers-core = { version = "=2.0.14", default-features = false }
ethers-providers = { version = "=2.0.14", default-features = false }
rustc-hex = "=2.1.0"
fixed-hash = "=0.8.0"
uint = "=0.9.5"
borsh = { version = "=0.9.3", features = ["std"] }
serde = { version = "=1.0.229", features = ["derive"] }
serde_json = "=1.0.154"
clap = { version = "=4.6.7", features = ["derive"] }
tokio = { version = "=1.54.1", features = ["macros", "rt-multi-thread"] }
eyre = "=0.6.14"
log = "=0.4.35"
pretty_env_logger = "=0.5.0"
thiserror = "1"
