[package]
name = "tendr"
version = "0.1.0"
edition = "2021"
publish = false

[dependencies]
anyhow = "1"
crc32c = "0.6"
libc = "0.2"
rustix = { version = "1", features = ["event", "fs", "process", "termios"] }
serde = { version = "1", features = ["derive"] }
serde_json = "1"
sha2 = "0.10"
shell-words = "1"
thiserror = "2"
uuid = { version = "1", features = ["v7"] }
