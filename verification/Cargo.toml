[package]
name = "vdcp_bridge"
version = "0.1.0"
edition = "2021"
publish = false

[dependencies]
serde = { version = "*", features = ["derive"] }
serde_json = "*"
ureq = "*"
serialport = { version = "*", default-features = false }
confy = "*"
log = "*"
flexi_logger = "*"
rayon = "*"
