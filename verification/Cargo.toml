[package]
name = "flight_bench"
version = "0.1.0"
edition = "2021"
publish = false

[dependencies]
anyhow = "1"
arrow-flight = "*"
byte-unit = "4"
bytes = "1"
chrono = "0.4"
clap = { version = "4", features = ["derive"] }
ctrlc = "3"
futures = "0.3"
hdrhistogram = "7"
serde = { version = "1", features = ["derive"] }
serde_json = "1"
tokio = { version = "1", features = ["full"] }
tonic = "*"
