[package]
name = "captures"
version = "0.1.0"
edition = "2021"
publish = false

[dependencies]
log = "0.4"
rocket = { version = "0.5", features = ["json"] }
rocket_sync_db_pools = { version = "0.1", features = ["sqlite_pool"] }
serde = { version = "1", features = ["derive"] }
