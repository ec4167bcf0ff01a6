[package]
name = "cargo-build-sbpf"
version = "0.1.0"
edition = "2021"
publish = false

[dependencies]
anyhow = "1"
cargo-config2 = "*"
clap = { version = "4", features = ["derive"] }
dialoguer = "*"
home = "*"
rustc_version = "*"
toml_edit = { version = "*", features = ["serde"] }
which = "*"
