[package]
name = "tudu_auth"
version = "0.1.0"
edition = "2021"
publish = false

[dependencies]
actix = "*"
actix-web = "*"
bcrypt = "*"
chrono = { version = "*", features = ["serde"] }
diesel = { version = "*", features = ["mysql", "r2d2", "chrono"] }
dotenv = "*"
failure = "*"
futures = "*"
log = "*"
serde = { version = "*", features = ["derive"] }
serde_derive = "*"
serde_json = "*"
simplelog = "*"
uuid = { version = "0.8", features = ["v4"] }
