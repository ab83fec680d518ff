[package]
name = "runz"
version = "0.1.0"
edition = "2021"
publish = false

[dependencies]
portable-pty = "=0.9.0"
path-clean = "=1.0.1"
anyhow = "1"
serde = { version = "1", features = ["derive"] }
serde_json = "1"
serde_yaml = "*"
toml = "*"
parking_lot = "*"
open = "*"
ctrlc = "*"
signal-hook = "*"
slugify = "*"
tiny_http = "*"
libc = "*"
wry = "*"
tao = "*"
muda = "*"
rfd = "*"
image = { version = "*", default-features = false, features = ["png"] }
