[package]
name = "magics"
version = "0.1.0"
edition = "2021"
publish = false

[dependencies]
anyhow = "=1.0.104"
atty = "=0.2.14"
catppuccin = "1"
clap = { version = "=4.6.7", features = ["derive"] }
colored = "=2.2.0"
itertools = "0.12"
ringbuf = "0.3"
serde = { version = "=1.0.229", features = ["derive"] }
