[package]
name = "users_api"
version = "0.1.0"
edition = "2021"
publish = false

[dependencies]
actix-web = { version = "4", default-features = false, features = ["macros"] }
diesel = { version = "1.4", features = ["postgres"] }
dotenv = "0.15"
serde = { version = "1", features = ["derive"] }
serde_json = "1"
