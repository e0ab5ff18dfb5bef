[package]
name = "traffic_monitor"
version = "0.1.0"
edition = "2021"
publish = false

[dependencies]
crossbeam-channel = "*"
packet = "*"
hwaddr = "*"
pcap = "*"
libc = "*"
actix-web = { version = "*", default-features = false, features = ["macros"] }
env_logger = "*"
futures = "*"
bytes = "*"
serde = { version = "*", features = ["derive"] }
serde_derive = "*"
