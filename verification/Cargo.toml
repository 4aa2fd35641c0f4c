[package]
name = "short_links"
version = "0.1.0"
edition = "2021"
publish = false

[dependencies]
sled = "0.34"
rand = "0.8"
url = "2"
chrono = "0.4"
serde = { version = "1", features = ["derive"] }
async-graphql = { version = "7", default-features = false }
