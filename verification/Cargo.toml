[package]
name = "armour_lang"
version = "0.1.0"
edition = "2021"
publish = false

[dependencies]
regex = "=1.13.1"
base64 = "=0.13.1"
url = "=2.5.8"
petgraph = { version = "*", default-features = false, features = ["std"] }
