[package]
name = "tablefmt"
version = "0.1.0"
edition = "2021"
publish = false

[dependencies]
unicode-width = "=0.1.11"
textwrap = "=0.16.4"
clap = { version = "=4.6.7", features = ["derive"] }
eyre = "=0.6.14"
prettytable-rs = "=0.10.0"
