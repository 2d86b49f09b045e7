[package]
name = "basebackup"
version = "0.1.0"
edition = "2021"
publish = false

[dependencies]
tar = "0.4"
crc32c = "0.6"
walkdir = "2"
anyhow = "1"
