[package]
name = "activity_warden"
version = "0.1.0"
edition = "2021"
publish = false

[dependencies]
chrono = { version = "=0.4.45", features = ["serde"] }
hex = "=0.4.3"
serde_json = "=1.0.154"
sha2 = "=0.10.9"
arc-swap = "=1.9.3"
directories = "=6.0.0"
env_logger = "=0.11.11"
futures-lite = "=2.6.1"
log = "=0.4.34"
r2d2 = "=0.8.10"
r2d2_sqlite = "=0.35.0"
rusqlite = { version = "=0.40.2", features = ["bundled", "chrono"] }
serde = { version = "=1.0.229", features = ["derive"] }
tokio = { version = "=1.54.1", features = ["macros", "rt-multi-thread", "signal", "sync", "time"] }
zbus = { version = "=5.19.0", default-features = false, features = ["tokio"] }
zvariant = { version = "=5.15.1", features = ["chrono"] }
