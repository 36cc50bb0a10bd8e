[package]
name = "see"
version = "0.1.0"
edition = "2021"
publish = false

[dependencies]
base64 = "=0.22.1"
devicons = "=0.6.13"
dirs = "=6.0.0"
emojis = "=0.8.2"
htmd = "=0.5.6"
hyperpolyglot = "=0.1.7"
markdown = "=1.0.0"
reqwest = { version = "=0.12.28", default-features = false, features = ["blocking"] }
serde = { version = "=1.0.229", features = ["derive"] }
sha2 = "=0.10.9"
tempfile = "=3.27.0"
termcolor = "=1.4.1"
toml = "=0.8.23"
url = "=2.5.8"
viuer = { version = "=0.11.0", features = ["print-file"] }
