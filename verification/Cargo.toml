[package]
name = "bootr"
version = "0.0.1"
edition = "2021"
publish = false

[dependencies]
chrono = { version = "0.4", default-features = false, features = ["std"] }
clap = "4"
dircpy = { version = "0.3", default-features = false }
flate2 = "1"
futures-util = "0.3"
indexmap = { version = "2", features = ["serde"] }
log = "0.4"
nix = { version = "0.28", features = ["fs"] }
oci-distribution = { version = "0.11", default-features = false, features = ["rustls-tls"] }
serde = { version = "1", features = ["derive"] }
serde_json = "1"
serde_yaml = "0.9"
tar = "0.4"
tokio = { version = "1", features = ["macros", "rt-multi-thread"] }
walkdir = "2"
