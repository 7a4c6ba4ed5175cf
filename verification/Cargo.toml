[package]
name = "listing_watch"
version = "0.1.0"
edition = "2021"
publish = false

[dependencies]
anyhow = "=1.0.104"
async-std = { version = "=1.13.2", features = ["attributes"] }
diesel = { version = "=2.3.14", features = ["mysql"] }
diesel-derive-enum = { version = "=2.1.0", features = ["mysql"] }
dotenv = "=0.15.0"
futures = "=0.3.34"
scraper = "=0.29.0"
serde = { version = "=1.0.229", features = ["derive"] }
serde_json = "=1.0.154"
serde_with_macros = "=3.24.0"
surf = "=2.3.2"
thiserror = "=1.0.69"

[dev-dependencies]
regex = "=1.13.1"
