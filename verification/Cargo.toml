[package]
name = "flashrom_tester"
version = "0.1.0"
edition = "2021"
publish = false

[dependencies]
libc = "=0.2.190"
log = { version = "=0.4.34", features = ["std"] }
atty = "=0.2.14"
chrono = "=0.4.45"
clap = "=2.34.0"
rand = "=0.8.8"
serde_json = "=1.0.151"
