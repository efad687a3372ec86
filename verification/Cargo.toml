[package]
name = "pdf_export"
version = "0.1.0"
edition = "2021"
publish = false

[dependencies]
image = { version = "=0.23.14", default-features = false, features = ["jpeg"] }
miniz_oxide = "=0.4.4"
pdf-writer = "=0.4.1"
ttf-parser = { version = "=0.12.3", default-features = false, features = ["std"] }
