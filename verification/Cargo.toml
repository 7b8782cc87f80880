[package]
name = "gpkg"
version = "0.1.0"
edition = "2021"
publish = false

[dependencies]
base64 = "0.13"
serde = { version = "1", features = ["derive"] }
serde_json = "1"
structopt = "0.3"
dirs = "4"
colored = "2"
log = "0.4"
env_logger = "0.9"
tempfile = "3"
prettytable-rs = "0.10"
