[package]
name = "video_stacker"
version = "0.1.0"
edition = "2021"
publish = false

[dependencies]
csv = "=1.4.0"
clap = { version = "=4.6.7", features = ["derive"] }
serde = { version = "=1.0.229", features = ["derive"] }
serde_derive = "=1.0.229"
toml = "=1.2.1"
flexi_logger = "=0.31.10"
indicatif = "=0.18.6"
log = "=0.4.35"
rayon = "=1.12.0"
