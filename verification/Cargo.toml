[package]
name = "fork_sync"
version = "0.1.0"
edition = "2021"
publish = false

[dependencies]
anyhow = "*"
git2 = { version = "*", default-features = false }
walkdir = "*"
