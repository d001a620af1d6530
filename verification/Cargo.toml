[package]
name = "mymusic_daw"
version = "0.4.0"
edition = "2021"
publish = false

[dependencies]
thiserror = "=2.0.21"
serde = { version = "=1.0.229", features = ["derive"] }
serde_json = "=1.0.154"
libloading = "=0.8.9"
ringbuf = "=0.4.8"
hound = "=3.5.1"
midir = "=0.10.4"
cpal = "=0.15.3"
uuid = { version = "=1.29.0", features = ["v4", "serde"] }
dirs = "=6.0.0"
base64 = "=0.22.1"
lazy_static = "=1.5.1"
