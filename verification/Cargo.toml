[package]
name = "taskboard"
version = "0.1.0"
edition = "2021"
publish = false

[dependencies]
chrono = "=0.4.45"
diesel = { version = "=2.3.14", features = ["sqlite"] }
hmac = "=0.12.1"
jwt = "=0.16.0"
rocket = { version = "=0.5.2", features = ["json"] }
rocket_cors = "=0.6.0"
rocket_sync_db_pools = { version = "=0.1.0", features = ["diesel_sqlite_pool"] }
serde = { version = "=1.0.229", features = ["derive"] }
sha2 = "=0.10.9"
