[package]
name = "spotifast"
version = "0.1.0"
edition = "2021"
publish = false

[dependencies]
unicode-bidi = "=0.3.18"
directories = "=6.0.0"
clap = { version = "=4.6.7", features = ["derive"] }
anyhow = "=1.0.104"
log = "=0.4.35"
reqwest = { version = "=0.12.28", default-features = false, features = ["rustls-tls"] }
rand = "=0.9.5"
raw-window-handle = "=0.6.2"
skrifa = "*"
memmap2 = "0.9"
