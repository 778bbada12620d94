[package]
name = "uaparser"
version = "0.1.0"
edition = "2021"
publish = false

[dependencies]
fancy-regex = "*"
serde = { version = "*", features = ["derive"] }
serde_yaml = "*"
rayon = "*"
derive_more = { version = "*", features = ["display", "from"] }
