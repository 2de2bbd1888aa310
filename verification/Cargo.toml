[package]
name = "fastboot_flasher"
version = "0.1.0"
edition = "2021"
publish = false

[dependencies]
indicatif = "0.17"
anyhow = "1"
clap = { version = "4", features = ["derive"] }
tokio = { version = "1", features = ["rt-multi-thread", "macros", "time"] }
nusb = "0.2"
serialport = { version = "4", default-features = false }
libc = "0.2"
inquire = "0.7"
crossterm = "0.28"
serde = { version = "1", features = ["derive"] }
serde_json = "1"
tempfile = "3"
