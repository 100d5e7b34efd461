[package]
name = "stego_share"
version = "0.1.0"
edition = "2021"
publish = false

[dependencies]
image = { version = "0.24", default-features = false, features = ["png", "jpeg", "gif", "bmp"] }
rand = "0.8"
bincode = "1.3"
serde = "1"
serde_derive = "1"
lazy_static = "1.4"
sysinfo = { version = "0.29", default-features = false }
glob = "0.3"
minifb = { version = "0.25", default-features = false, features = ["x11"] }
