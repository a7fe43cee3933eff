[package]
name = "pyra"
version = "0.1.0"
edition = "2021"
publish = false

[dependencies]
structopt = "0.3"
dirs = "2"
serde = { version = "1", features = ["derive"] }
serde_json = "1"
colored = "1.9"
dialoguer = "0.5"
ctrlc = "3"
webbrowser = "0.5"
signal-hook = "0.1"
log = "0.4"
console = "0.10"
indicatif = "0.13"
