[package]
name = "mimic"
version = "0.1.0"
edition = "2021"
publish = false

[dependencies]
regex = "1"
object = { version = "0.36", default-features = false, features = ["read_core", "elf", "std"] }
anyhow = "1"
clap = { version = "4", features = ["derive"] }
colored = "2"
serde = { version = "1", features = ["derive"] }
serde_json = "1"
tokio = { version = "1", features = ["macros", "rt-multi-thread", "net", "io-util", "time"] }
reqwest = { version = "0.12", default-features = false, features = ["json", "rustls-tls", "stream"] }
futures-util = "0.3"
indicatif = "0.17"
alpm = "*"
libc = "0.2"
which = "*"
tar = "0.4"
flate2 = "1"
zstd = "0.13"
xz2 = "0.1"
ar = "0.9"
sha2 = "0.10"
rusqlite = { version = "*", features = ["bundled"] }
