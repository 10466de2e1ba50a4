[package]
name = "forest_inventory_analyzer"
version = "0.1.0"
edition = "2021"
publish = false

[dependencies]
serde = { version = "*", features = ["derive"] }
serde_json = "*"
csv = "*"
statrs = "*"
clap = { version = "*", features = ["derive"] }
