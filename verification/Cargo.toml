[package]
name = "dicom_anonymizer"
version = "0.1.0"
edition = "2021"
publish = false

[dependencies]
anyhow = "1.0.75"
clap = { version = "4.4.1", features = ["derive"] }
tokio = { version = "1.32.0", features = ["full"] }
tokio-stream = "0.1.14"
tracing = "0.1.37"
tracing-subscriber = "0.3.17"
dicom = "0.6.1"
dicom-core = "0.6.1"
rand = "0.8.5"
