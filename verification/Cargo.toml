[package]
name = "netwatch"
version = "0.1.0"
edition = "2021"
publish = false

[dependencies]
internet-checksum = "*"
crossbeam = "*"
socket2 = "*"
pnet = "*"
pnet_datalink = "*"
time = "*"
anyhow = "*"
surge-ping = "*"
tokio = { version = "*", features = ["rt-multi-thread", "time", "sync", "macros", "net"] }
maxminddb = "*"
hickory-resolver = "*"
