[package]
name = "oxiflow"
version = "0.1.0"
edition = "2021"
publish = false

[dependencies]
nalgebra = "0.33"
rayon = "1"
serde = { version = "1", features = ["derive"] }
thiserror = "2"

[dev-dependencies]
serde_json = "1"
