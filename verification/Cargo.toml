[package]
name = "k5"
version = "0.1.0"
edition = "2021"
publish = false

[dependencies]
elf = "0.7"
clap = { version = "4", features = ["derive"] }
anyhow = "1"
serialport = { version = "4", default-features = false }
indicatif = "0.17"
rustyline = "*"
