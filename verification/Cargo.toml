[package]
name = "vcs_help"
version = "0.1.0"
edition = "2021"
publish = false

[dependencies]
shlex = "*"
clap = { version = "*", features = ["derive"] }
crossterm = "*"
thiserror = "*"
