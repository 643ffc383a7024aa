[package]
name = "hotsauce_auth"
version = "0.1.0"
edition = "2021"
publish = false

[dependencies]
jsonwebtoken = "8"
base64 = "0.13"
serde_json = "1"
serde = { version = "1", features = ["derive"] }
axum = "0.5"
axum-extra = { version = "0.3", features = ["cookie-private"] }
tokio = { version = "1", features = ["macros", "rt-multi-thread"] }
reqwest = { version = "0.11", default-features = false, features = ["json"] }
