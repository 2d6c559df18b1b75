[package]
name = "odilia"
version = "0.1.0"
edition = "2021"
publish = false

[dependencies]
rdev = { version = "=0.5.3", features = ["unstable_grab", "serialize"] }
serde = { version = "=1.0.229", features = ["derive"] }
serde_json = "=1.0.154"
nix = { version = "=0.31.3", features = ["user"] }
zbus = "=5.19.0"
atspi-common = "=0.14.0"
atspi-proxies = "=0.14.0"
futures-lite = "=2.6.1"
tracing = "=0.1.44"
dirs = "*"
ssip = "*"
