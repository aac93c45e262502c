[package]
name = "sprite_encoding"
version = "0.1.0"
edition = "2021"
publish = false

[dependencies]
nalgebra = { version = "*", default-features = false, features = ["std"] }
serde = { version = "1", features = ["derive"] }
specs = { version = "*", default-features = false }
