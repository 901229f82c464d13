[package]
name = "binscan"
version = "0.1.0"
edition = "2021"
publish = false

[dependencies]
clap = { version = "4", features = ["derive"] }
crc32-v2 = "*"
jiff = "*"
log = "0.4"
lzfse = "*"
serde = { version = "1", features = ["derive"] }
serde_json = "1"
xz2 = "*"
