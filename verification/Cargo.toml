[package]
name = "tarpaulin"
version = "0.1.0"
edition = "2021"
publish = false

[dependencies]
nix = { version = "=0.31.3", features = ["ptrace", "process", "signal", "personality", "user"] }
libc = "=0.2.191"
chrono = { version = "=0.4.45", default-features = false, features = ["clock"] }
quick-xml = "=0.42.0"
tera = { version = "=2.4.0", default-features = false }
