[package]
name = "whitedog"
version = "0.1.0"
edition = "2021"
publish = false

[dependencies]
Inflector = "0.11"
anyhow = "1"
async-trait = "0.1"
chrono = { version = "0.4", features = ["serde"] }
clap = { version = "3", features = ["derive", "cargo"] }
google-sheets4 = "2"
hyper = "0.14"
hyper-rustls = "0.22"
log = "0.4"
reqwest = { version = "0.11", default-features = false, features = ["rustls-tls", "cookies", "json"] }
rocket = { version = "0.5", features = ["json"] }
rocket_cors = "0.6"
rocket_okapi = { version = "0.8", features = ["swagger", "rapidoc"] }
schemars = "0.8"
serde = { version = "1", features = ["derive"] }
serde_json = "1"
simple_logger = "1"
tokio = { version = "1", features = ["full"] }
yup-oauth2 = "5"
