[package]
name = "trash_core"
version = "0.1.0"
edition = "2021"
publish = false

[dependencies]
chrono = { version = "0.4", default-features = false, features = ["std"] }
libc = "0.2"
thiserror = "1"
urlencoding = "2"
