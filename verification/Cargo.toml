[package]
name = "mdk_snapshot_bug"
version = "0.1.0"
edition = "2021"
publish = false

[dependencies]
mdk-sqlite-storage = "=0.6.0"
mdk-storage-traits = "=0.6.0"
rusqlite = "=0.32.1"
serde_json = "=1.0.154"
tempfile = "=3.27.0"
