[package]
name = "teamauth"
version = "0.1.0"
edition = "2021"
publish = false

[dependencies]
rand = "0.8"
jsonwebtoken = "9"
urlencoding = "2"
serde = { version = "1", features = ["derive"] }
serde_json = "1"
actix-web = { version = "4", default-features = false, features = ["macros", "cookies"] }
reqwest = { version = "0.11", default-features = false, features = ["json"] }
tokio = { version = "1", features = ["rt-multi-thread", "macros"] }
futures-util = "0.3"
