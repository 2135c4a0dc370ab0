[package]
name = "zero2prod"
version = "0.1.0"
edition = "2021"
publish = false

[dependencies]
uuid = { version = "1", features = ["v4"] }
rand = "0.8"
tokio = { version = "1", features = ["macros", "rt-multi-thread", "time"] }
actix-web = { version = "4", default-features = false, features = ["macros", "cookies"] }
actix-session = { version = "0.9", features = ["cookie-session"] }
actix-web-flash-messages = { version = "0.4", features = ["cookies"] }
actix-web-lab = "0.20"
sqlx = { version = "0.7", default-features = false, features = ["runtime-tokio-rustls", "postgres", "uuid", "chrono"] }
serde = { version = "1", features = ["derive"] }
chrono = { version = "0.4", default-features = false, features = ["clock"] }
secrecy = "0.8"
thiserror = "1"
base64 = "0.21"
argon2 = "0.5"
reqwest = { version = "0.11", default-features = false, features = ["rustls-tls"] }
