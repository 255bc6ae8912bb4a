[package]
name = "pesh"
version = "0.1.0"
edition = "2021"
publish = false

[dependencies]
shlex = "*"
clap = { version = "*", features = ["derive"] }
dialoguer = { version = "*", features = ["completion", "history"] }
nix = { version = "*", features = ["fs", "user"] }
thiserror = "*"
tracing = "*"
tracing-subscriber = "*"
