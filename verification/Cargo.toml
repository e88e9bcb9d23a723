[package]
name = "sbc"
version = "0.1.2"
edition = "2021"
publish = false

[dependencies]
arboard = "3"
clap = { version = "4", features = ["derive", "env"] }
crossterm = "0.29"
ctrlc = "3"
directories = "6"
png = "0.18"
portable-pty = "0.9"
serde = { version = "1", features = ["derive"] }
toml = "0.9"
