[package]
name = "mydocker"
version = "0.1.0"
edition = "2021"
publish = false

[dependencies]
anyhow = "1"
async-compression = { version = "0.4", features = ["tokio", "gzip"] }
clap = { version = "4", features = ["derive"] }
libc = "0.2"
nix = { version = "*", features = ["mount", "signal", "fs"] }
reqwest = { version = "0.12", default-features = false, features = ["json", "rustls-tls"] }
serde = { version = "1", features = ["derive"] }
tokio = { version = "1", features = ["rt-multi-thread", "fs", "io-util", "macros"] }
tokio-tar = "0.3"

[dev-dependencies]
chumsky = "0.9"
