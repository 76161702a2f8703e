[package]
name = "oscmidi"
version = "0.1.0"
edition = "2021"
publish = false

[dependencies]
crossbeam-channel = "0.5"
rtrb = "0.3"
serde = { version = "1", features = ["derive"] }
serde_yaml = "0.9"
directories = "5"
log = "0.4"

[dev-dependencies]
tempfile = "3"
