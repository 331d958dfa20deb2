[package]
name = "meme_expert"
version = "0.1.0"
edition = "2021"
publish = false

[dependencies]
anyhow = "=1.0.104"
bs58 = "=0.5.1"
clap = { version = "=4.6.7", features = ["derive"] }
dotenvy = "=0.15.7"
duckdb = { version = "1", default-features = false, features = ["r2d2"] }
futures-util = { version = "=0.3.34", features = ["sink"] }
r2d2 = "0.8"
rmcp = { version = "=3.8.0", features = ["server", "transport-io", "macros"] }
rustls = { version = "=0.23.46", default-features = false, features = ["std", "tls12", "logging", "ring"] }
serde = { version = "=1.0.229", features = ["derive"] }
serde_json = "=1.0.154"
tokio = { version = "=1.54.1", features = ["full"] }
tokio-tungstenite = { version = "=0.30.0", features = ["rustls-tls-webpki-roots"] }
tracing = "=0.1.44"
tracing-subscriber = { version = "=0.3.23", features = ["env-filter"] }

[dev-dependencies]
borsh = "=1.8.1"
