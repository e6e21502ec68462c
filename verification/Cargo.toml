[package]
name = "pmu_programmer"
version = "0.1.0"
edition = "2021"
publish = false

[dependencies]
serde = { version = "=1.0.229", features = ["derive"] }
thiserror = "=2.0.21"
log = "=0.4.35"
env_logger = "=0.11.11"
tokio = { version = "=1.54.1", features = ["rt"] }
libloading = "=0.9.0"
libftd2xx = "=0.33.1"
ftdi-mpsse = "=0.1.2"
