[package]
name = "backend"
version = "0.1.0"
edition = "2021"
publish = false

[dependencies]
actix-cors = "0.7"
actix-multipart = "0.7"
actix-web = "4"
argon2 = "0.5"
aws-config = "1"
aws-sdk-s3 = "1"
chrono = { version = "0.4", features = ["serde"] }
diesel = { version = "2", features = ["postgres", "uuid", "chrono"] }
dotenvy = "0.15"
flate2 = "1"
futures = "0.3"
hound = "3"
image = { version = "0.25", default-features = false, features = ["png", "jpeg"] }
password-hash = { version = "0.5", features = ["getrandom"] }
rodio = { version = "*", default-features = false, features = ["mp3"] }
serde = { version = "1", features = ["derive"] }
uuid = { version = "1", features = ["v4", "serde"] }
