[package]
name = "boltsnap"
version = "0.1.0"
edition = "2021"
publish = false

[dependencies]
serde_json = "=1.0.154"
toml = "=0.8.23"
image = { version = "=0.25.10", default-features = false, features = ["png"] }
libc = "=0.2.191"
x11rb = "=0.13.2"
arboard = { version = "=3.7.0", default-features = false, features = ["image-data"] }
wl-clipboard-rs = "=0.9.5"
zbus = "5"
