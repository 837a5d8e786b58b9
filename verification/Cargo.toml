[package]
name = "https"
version = "0.1.0"
edition = "2021"
publish = false

[dependencies]
blake3 = { version = "1", default-features = false, features = ["std", "pure"] }
brotli = "*"
cidr = "0.2"
flate2 = "1"
hyper-native-tls = "0.3"
iron = "0.6"
mime_guess = "1.8"
percent-encoding = "2"
rand = "0.7"
rfsapi = "*"
serde = { version = "1", features = ["derive"] }
serde_json = "1"
time = "0.1"
trivial_colours = "*"
walkdir = "2"
xml-rs = "*"
