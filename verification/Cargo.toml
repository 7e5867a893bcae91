[package]
name = "seogi"
version = "0.1.0"
edition = "2021"
publish = false

[dependencies]
anyhow = "1"
chrono = "0.4"
clap = { version = "4", features = ["derive"] }
hex = "0.4"
regex = "1"
rmcp = { version = "*", features = ["server", "macros", "transport-io"] }
rusqlite = "*"
schemars = "*"
serde = { version = "1", features = ["derive"] }
serde_json = "1"
sha2 = "0.10"
thiserror = "*"
tokio = { version = "1", features = ["rt", "macros", "io-std"] }
uuid = { version = "1", features = ["v4"] }

[dev-dependencies]
tempfile = "3"
