[package]
name = "sir"
version = "0.1.0"
edition = "2021"
publish = false

[dependencies]
anyhow = "1"
calamine = "0.16"
directories = "*"
flexi_logger = { version = "*", default-features = false }
iced = { version = "0.1", default-features = false }
log = "0.4"
ron = "*"
self_update = { version = "*", default-features = false }
serde = { version = "1", features = ["derive"] }
thiserror = "1"
xlsxwriter = "0.3"
