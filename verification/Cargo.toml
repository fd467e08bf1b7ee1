[package]
name = "connlib"
version = "0.1.0"
edition = "2021"
publish = false

[dependencies]
tokio = { version = "1", features = ["net"] }
quinn-udp = "0.5"
socket2 = "0.5"
lockfree-object-pool = "0.1"
gat-lending-iterator = "0.1"
ip_network = "0.4"
ip_network_table = "0.2"
