[package]
name = "obd_rust"
version = "0.1.0"
edition = "2021"
publish = false

[dependencies]
automotive_diag = "=0.1.29"
bt-hci = "=0.6.0"
defmt = "1.0"
embassy-executor = "=0.9.1"
embassy-futures = "=0.1.2"
embassy-sync = "=0.7.2"
embassy-time = "=0.5.1"
embedded-can = "=0.4.1"
embedded-io-async = "=0.6.1"
embedded-storage = "=0.3.2"
heapless = { version = "=0.8.0", features = ["serde"] }
portable-atomic = "1"
serde = { version = "1", default-features = false, features = ["derive"] }
serde-json-core = "=0.6.0"
static_cell = "2"
trouble-host = "=0.5.1"
