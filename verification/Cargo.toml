[package]
name = "bumper"
version = "0.1.0"
edition = "2021"
publish = false

[dependencies]
nom = "8"
serde = { version = "1", features = ["derive"] }
thiserror = "2"
