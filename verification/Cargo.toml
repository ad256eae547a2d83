[package]
name = "script_utils"
version = "0.1.0"
edition = "2021"
publish = false

[dependencies]
regex = "1"
encoding = "0.2"
xml-rs = "0.8"
url = "2"
cookie = "*"
hyper = "0.10"
serde = { version = "1", features = ["derive"] }
toml = "*"
xdg = "*"
inotify = "*"
pb = "*"
pocket = "*"
yadns = "*"
