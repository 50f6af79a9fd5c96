[package]
name = "nilkit"
version = "0.1.0"
edition = "2021"
publish = false

[dependencies]
chrono = "0.4"
gtk4 = { version = "0.9", features = ["v4_12"] }
gtk4-layer-shell = "0.4"
zbus = "5"
async-io = "2"
futures-channel = "0.3"
futures-util = "0.3"
greetd_ipc = { version = "0.10", features = ["sync-codec"] }
zeroize = "1"
serde = { version = "1", features = ["derive"] }
serde_json = "1"
ureq = "3"
libc = "0.2"
dirs = "6"
signal-hook = "0.3"
