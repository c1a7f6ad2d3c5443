[package]
name = "filesync"
version = "0.1.0"
edition = "2021"
publish = false

[dependencies]
clap = { version = "4", features = ["derive"] }
fs_extra = "1"
retrotv-file = "=0.0.5-alpha"
