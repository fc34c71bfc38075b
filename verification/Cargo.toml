[package]
name = "sqlite_zstd"
version = "0.1.0"
edition = "2021"
publish = false

[dependencies]
zstd = "*"
rusqlite = { version = "*", features = ["bundled", "vtab", "functions"] }
