[package]
name = "geo_ingest"
version = "0.1.0"
edition = "2021"
publish = false

[dependencies]
serde_json = "1"
serde = { version = "1", features = ["derive"] }
geojson = "0.24"
tokio = { version = "1", features = ["full"] }
tokio-postgres = "0.7"
deadpool-postgres = "0.14"
futures = "0.3"
bytes = "1"
toml = "0.8"
chrono = "0.4"
sys-info = "0.9"
