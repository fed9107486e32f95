[package]
name = "vision_gateway"
version = "0.1.0"
edition = "2021"
publish = false

[dependencies]
actix-files = "=0.7.0"
actix-web = { version = "=4.15.0", default-features = false, features = ["macros"] }
chrono = "=0.4.45"
dotenv = "=0.15.0"
fern = { version = "=0.7.1", features = ["colored"] }
log = "=0.4.34"
reqwest = { version = "=0.13.5", default-features = false, features = ["json", "query"] }
serde = { version = "=1.0.229", features = ["derive"] }
serde_json = "=1.0.151"
