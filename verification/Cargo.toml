[package]
name = "table_store"
version = "0.1.0"
edition = "2021"
publish = false

[dependencies]
sqlparser = "0.45"
axum = "0.7"
tokio = { version = "1", features = ["macros", "rt-multi-thread", "net"] }
serde = { version = "1", features = ["derive"] }
uuid = { version = "1", features = ["serde"] }
bitflags = "2"
