[package]
name = "rustpad"
version = "1.8.1"
edition = "2021"
publish = false

[dependencies]
anyhow = "=1.0.104"
async-scoped = { version = "=0.7.1", features = ["use-async-std"] }
async-std = "=1.13.2"
atty = "=0.2.14"
base64 = "=0.13.1"
clap = { version = "=3.2.25", features = ["derive"] }
clap_complete = "=3.2.5"
crossbeam = "=0.8.5"
crossterm = { version = "=0.22.1", features = ["event-stream"] }
dirs = "=4.0.0"
futures = "=0.3.34"
futures-timer = "=3.0.4"
getset = "=0.1.7"
hex = "=0.4.3"
humantime = "=2.4.0"
is_executable = "=1.0.6"
itertools = "=0.10.5"
log = "=0.4.34"
rayon = "=1.12.0"
reqwest = { version = "=0.11.27", features = ["blocking", "socks"] }
retry = "=1.3.1"
rmp-serde = "=1.3.1"
serde = { version = "=1.0.229", features = ["derive"] }
tui = { version = "=0.17.0", default-features = false, features = ["crossterm"] }
tui-logger = "=0.7.1"
urlencoding = "=2.1.3"

[dev-dependencies]
aes = "=0.8.4"
