[package]
name = "khudib"
version = "0.1.0"
edition = "2021"
publish = false

[dependencies]
anyhow = "1"
chrono = "0.4"
libc = "0.2"
log = "0.4"
minstant = "0.1"
prost = "0.13"
tokio = { version = "1", features = ["macros", "rt-multi-thread", "net", "io-util", "sync", "time"] }
tonic = "0.12"
ulid-generator-rs = "*"
