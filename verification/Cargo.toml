[package]
name = "pdf_audio"
version = "0.1.0"
edition = "2021"
publish = false

[dependencies]
pdf-extract = "*"
rodio = "0.19"
serde = { version = "1", features = ["derive"] }
which = "*"
