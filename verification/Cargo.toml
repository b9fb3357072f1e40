[package]
name = "opinions"
version = "0.1.0"
edition = "2021"
publish = false

[dependencies]
anyhow = "1"
async-trait = "0.1"
parking_lot = "0.12"
serde_json = "1"
sha2 = "0.10"
thiserror = "2"
time = { version = "0.3", features = ["macros"] }
tokio = { version = "1", features = ["rt", "sync", "time", "macros"] }
unicode-general-category = "1"
unicode-normalization = "0.1"
uuid = { version = "1", features = ["v4", "v5"] }
