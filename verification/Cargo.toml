[package]
name = "weight_writer"
version = "0.1.0"
edition = "2021"
publish = false

[dependencies]
frame-benchmarking = "=38.1.1"
handlebars = "=4.5.0"
serde = { version = "*", features = ["derive"] }
chrono = { version = "=0.4.45", default-features = false, features = ["std", "now"] }
