[package]
name = "novafetch"
version = "0.1.0"
edition = "2021"
publish = false

[dependencies]
sysinfo = "=0.39.6"
whoami = "=2.1.3"
clap = { version = "=4.6.7", features = ["derive"] }
serde = { version = "=1.0.229", features = ["derive"] }
serde_json = "=1.0.151"
dirs = "=7.0.0"
toml = "=1.1.7"
mpris = "=2.1.0"
local-ip-address = "=0.6.13"
display-info = "=0.5.9"
viuer = "=0.11.0"
image = { version = "=0.25.10", default-features = false, features = ["png", "jpeg"] }
