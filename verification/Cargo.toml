[package]
name = "telnet_chat"
version = "0.1.0"
edition = "2021"
publish = false

[dependencies]
askama = "=0.11.1"
chrono = "=0.4.45"
clap = "=4.6.7"
itertools = "=0.10.5"
lunatic = "0.13"
numtoa = "=0.2.4"
serde = { version = "=1.0.229", features = ["derive"] }
tui = { version = "=0.19.0", default-features = false }
