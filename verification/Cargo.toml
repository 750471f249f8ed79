[package]
name = "madness"
version = "0.1.0"
edition = "2021"
publish = false

[dependencies]
dns-parser = "0.8"
mdns = "*"
net2 = "0.2"
once_cell = "1"
tokio = { version = "1", features = ["net", "sync", "time", "macros", "rt"] }
