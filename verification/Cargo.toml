[package]
name = "worldraw"
version = "0.1.0"
edition = "2021"
publish = false

[dependencies]
fastnbt = "2"
image = { version = "0.25", default-features = false, features = ["png"] }
indicatif = "0.17"
mca = "*"
serde = { version = "1", features = ["derive"] }
tiny_http = "0.12"
zip = { version = "2", default-features = false, features = ["deflate"] }
