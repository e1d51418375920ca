[package]
name = "sample_changer"
version = "0.1.0"
edition = "2021"
publish = false

[dependencies]
serde = { version = "=1.0.229", features = ["derive"] }
serde_yaml = "=0.9.34"
thiserror = "=2.0.21"
chrono = "=0.4.45"
tokio = { version = "=1.54.1", features = ["rt-multi-thread", "time"] }
nalgebra = "=0.35.0"
epics-ca-rs = "=0.30.2"
epics-base-rs = "=0.30.2"
