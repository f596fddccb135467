[package]
name = "wayther"
version = "0.1.0"
edition = "2021"
publish = false

[dependencies]
chrono = "0.4"
serde_json = "1"
toml = "*"
serde = { version = "1", features = ["derive"] }
dirs = "*"
reqwest = { version = "*", features = ["json"] }
tokio = { version = "1", features = ["rt-multi-thread", "macros", "sync"] }
gtk4 = "*"
gtk4-layer-shell = "*"
