[package]
name = "kulua"
version = "0.1.0"
edition = "2021"
publish = false

[dependencies]
md-5 = "=0.10.6"
bytes = "=1.12.1"
rand = "=0.8.8"
uuid = { version = "=1.29.0", features = ["v4"] }
qrcode = { version = "=0.14.1", default-features = false, features = ["image"] }
prost = "=0.13.5"
serde = { version = "=1.0.229", features = ["derive"] }
serde_json = "=1.0.154"
tokio = { version = "=1.54.1", features = ["rt-multi-thread", "macros", "net", "time", "sync", "process", "io-util", "fs"] }
tokio-util = { version = "=0.7.20", features = ["codec"] }
tokio-stream = "=0.1.19"
futures = "=0.3.34"
ctrlc = "=3.5.2"
mdns-sd = "=0.13.11"
notify-rust = "=4.18.2"
arboard = { version = "=3.7.0", default-features = false }
parking_lot = "=0.12.5"
egui = "=0.31.1"
rodio = { version = "=0.20.1", default-features = false }
opus = "=0.3.1"
symphonia = { version = "=0.5.5", default-features = false, features = ["aac", "flac"] }
image = { version = "=0.25.10", default-features = false, features = ["png"] }
