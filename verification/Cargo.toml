[package]
name = "fact_cli"
version = "0.1.0"
edition = "2021"
publish = false

[dependencies]
serde = { version = "=1.0.229", features = ["derive"] }
serde_json = { version = "=1.0.154", features = ["preserve_order"] }
uuid = { version = "=1.29.0", features = ["v4", "v7", "serde"] }
hex = "=0.4.3"
time = { version = "=0.3.55", features = ["formatting", "parsing"] }
toml = "0.9"
clap = { version = "=4.6.7", features = ["derive"] }
tempfile = "3"
reqwest = { version = "=0.12.28", default-features = false, features = ["blocking", "json", "rustls-tls"] }
