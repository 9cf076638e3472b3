[package]
name = "price_feed"
version = "0.1.0"
edition = "2021"
publish = false

[dependencies]
serde_json = "*"
reqwest = { version = "*", default-features = false, features = ["blocking"] }
actix-web = { version = "*", default-features = false, features = ["macros"] }
