[package]
name = "home_cook_book"
version = "0.1.0"
edition = "2021"
publish = false

[dependencies]
regex = "1"
rand = "0.8"
urlencoding = "2"
serde = { version = "1", features = ["derive"] }
serde_json = "1"
