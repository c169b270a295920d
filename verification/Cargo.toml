[package]
name = "monsoon"
version = "0.1.0"
edition = "2021"
publish = false

[dependencies]
anyhow = "1"
arboard = { version = "3", default-features = false }
bytesize = "1"
chrono = "0.4"
clap = { version = "4", features = ["derive"] }
crossterm = "0.28"
curl = "0.4"
cxx = "1"
directories = "5"
glob = "0.3"
if-addrs = "0.13"
quick-xml = "0.37"
ratatui = "0.29"
rcgen = "0.13"
regex = "1"
rustls = "0.23"
rustls-pemfile = "2"
serde = { version = "1", features = ["derive"] }
serde_json = "1"
signal-hook = "0.3"
toml = "0.8"
tracing = "0.1"
tracing-subscriber = { version = "0.3", features = ["env-filter"] }
unicode-width = "0.2"
