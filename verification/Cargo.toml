[package]
name = "dll_installer"
version = "0.1.0"
edition = "2021"
publish = false

[dependencies]
anyhow = "*"
minreq = { version = "*", features = ["https"] }
zip = { version = "*", default-features = false, features = ["deflate"] }
