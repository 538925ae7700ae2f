[package]
name = "sensor_common"
version = "0.1.0"
edition = "2021"
publish = false

[dependencies]
onewire = "=0.4.0"
random = "=0.12.2"
tokio = { version = "=1.54.1", features = ["net", "time", "rt"] }
thiserror = "=1.0.69"
derive_builder = "=0.20.2"
