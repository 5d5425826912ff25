[package]
name = "workspace_database"
version = "0.1.0"
edition = "2021"
publish = false

[dependencies]
lru = "0.12"
uuid = { version = "1", features = ["v4", "v5"] }
yrs = "0.17"
md5 = "0.7"
serde = { version = "1", features = ["derive"] }
serde_json = "1"
bytes = "1"
