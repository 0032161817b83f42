[package]
name = "password_gate"
version = "0.1.0"
edition = "2021"
publish = false

[dependencies]
passwords = "3"
rand = "0.8"
crossterm = "0.27"
copypasta = "0.10"
clap = { version = "4", features = ["derive"] }
