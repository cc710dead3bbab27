[package]
name = "schema_script"
version = "0.1.0"
edition = "2021"
publish = false

[dependencies]
anyhow = "*"
colored = "*"
serde_json = "*"
sqlx = { version = "*", default-features = false, features = ["postgres", "runtime-tokio", "macros"] }
sqlx-core = "*"
sqlx-postgres = "*"
tokio = { version = "*", features = ["rt-multi-thread", "macros"] }
