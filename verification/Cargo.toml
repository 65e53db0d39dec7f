[package]
name = "myconnect4"
version = "0.1.0"
edition = "2021"
publish = false

[dependencies]
rand = "=0.8.8"
rayon = "=1.12.0"
regex = "=1.13.1"
chrono = "=0.4.45"
tokio = { version = "=1.54.1", features = ["full"] }
log = "=0.4.35"
env_logger = "=0.11.11"
thiserror = "=2.0.21"
either = "=1.19.0"
clap = { version = "=4.6.7", features = ["derive"] }
opentelemetry = "=0.33.1"
