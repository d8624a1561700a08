[package]
name = "todotxt_tui"
version = "0.1.0"
edition = "2021"
publish = false

[dependencies]
chrono = { version = "0.4", default-features = false, features = ["clock", "std"] }
ratatui = "0.29"
crossterm = "0.28"
tui-textarea = "0.7"
arboard = { version = "3", default-features = false }
clap = { version = "4", features = ["derive"] }
color-eyre = "0.6"
directories = "5"
serde = { version = "1", features = ["derive"] }
toml = "0.8"
tempfile = "3"
