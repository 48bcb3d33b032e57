[package]
name = "journali_api"
version = "0.1.0"
edition = "2021"
publish = false

[dependencies]
bcrypt = "=0.19.3"
chrono = "=0.4.45"
uuid = { version = "=1.29.0", features = ["v4", "serde"] }
hmac = "=0.13.0"
sha2 = "=0.11.1"
serde = { version = "=1.0.229", features = ["derive"] }
actix-web = "=4.18.1"
actix-rt = "=2.15.0"
actix-web-httpauth = "=0.8.3"
diesel = { version = "=2.3.14", features = ["postgres", "r2d2", "uuid", "chrono"] }
dotenv = "=0.15.0"
env_logger = "=0.11.11"
log = "=0.4.34"
