[package]
name = "search_gateway"
version = "0.1.0"
edition = "2021"
publish = false

[dependencies]
url = "2"
scraper = "*"
serde = { version = "1", features = ["derive"] }
serde_json = "1"
thiserror = "2"
clap = { version = "4", features = ["derive"] }
reqwest = { version = "0.12", default-features = false, features = ["blocking", "json", "rustls-tls"] }
rmcp = { version = "*", features = ["server", "transport-io", "macros"] }
schemars = "*"
tokio = { version = "1", features = ["rt-multi-thread", "macros", "io-std"] }
toml = "*"
