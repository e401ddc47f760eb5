[package]
name = "neural_mail"
version = "0.1.0"
edition = "2021"
publish = false

[dependencies]
serde_json = "*"
chrono = "*"
reqwest = { version = "*", default-features = false }
tokio = { version = "*", features = ["rt-multi-thread", "macros", "time"] }
rusqlite = { version = "*", features = ["bundled"] }
bcrypt = "*"
email_address = "*"
rand = "*"
dotenvy = "*"
