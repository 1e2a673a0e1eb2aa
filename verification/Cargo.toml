[package]
name = "geello"
version = "0.1.0"
edition = "2021"
publish = false

[dependencies]
anyhow = "=1.0.104"
geo = "=0.33.1"
geo-types = "=0.7.20"
geojson = "=1.0.0"
image = { version = "=0.25.10", default-features = false, features = ["png"] }
peniko = { version = "=0.6.1", features = ["serde"] }
reqwest = { version = "=0.13.5", default-features = false, features = ["blocking"] }
rocket = "0.5"
rocket_ws = "*"
ron = "=0.12.2"
serde = { version = "=1.0.229", features = ["derive"] }
serde_json = "=1.0.154"
tokio = { version = "=1.54.1", features = ["sync", "time", "rt"] }
vello = "=0.11.0"
