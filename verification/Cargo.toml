[package]
name = "anchor"
version = "0.1.0"
edition = "2021"
publish = false

[dependencies]
cookie = { version = "=0.18.2", features = ["signed"] }
inth-oauth2 = "=0.16.0"
dotenv = "=0.15.0"
reqwest = "=0.9.24"
serde_json = "=1.0.151"
