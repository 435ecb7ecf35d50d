[package]
name = "termdj"
version = "0.1.0"
edition = "2021"
publish = false

[dependencies]
bytes = "0.5"
ipnetwork = "0.17"
pnet = "0.26"
tokio = { version = "0.2", features = ["full"] }
tokio-util = { version = "0.3", features = ["full"] }
futures = "0.3"
id3 = "0.5"
walkdir = "2"
rand = "0.7"
parking_lot = "0.11"
termion = "1.5"
