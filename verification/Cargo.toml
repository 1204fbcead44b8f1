[package]
name = "game_smith"
version = "0.1.0"
edition = "2021"
publish = false

[dependencies]
chacha20poly1305 = "=0.10.1"
getrandom = "=0.2.17"
data-encoding = "=2.11.1"
libc = "=0.2.191"
serde = { version = "=1.0.229", features = ["derive"] }
serde_json = "=1.0.154"
serde_yaml = "0.9"
flate2 = "=1.1.10"
tar = "=0.4.46"
open = "=5.4.5"
cron = "=0.17.0"
chrono = "=0.4.45"
tracing = "=0.1.44"
auto-launch = "=0.6.0"
mime_guess = "=2.0.5"
