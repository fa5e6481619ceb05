[package]
name = "pci"
version = "0.1.0"
edition = "2021"
publish = false

[dependencies]
byteorder = "1.5"
log = "0.4"
serde = { version = "1.0", features = ["derive"] }
thiserror = "2.0"
