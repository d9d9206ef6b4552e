[package]
name = "wifi_qr"
version = "0.1.0"
edition = "2021"
publish = false

[dependencies]
percent-encoding = "=2.3.2"
shlex = "=1.3.0"
bardecoder = "=0.5.0"
rqrr = { version = "=0.11.0", default-features = false }
image = "=0.24.9"
icy_sixel = "0.1"
nokhwa = { version = "=0.10.11", features = ["input-native"] }
indicatif = "=0.18.6"
indicatif-log-bridge = "=0.2.3"
log = "=0.4.34"
env_logger = "=0.11.11"
