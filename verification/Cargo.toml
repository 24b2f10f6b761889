[package]
name = "simple_migrator"
version = "0.1.0"
edition = "2021"
publish = false

[dependencies]
sqlx = { version = "0.6", default-features = false, features = ["postgres", "runtime-tokio-rustls"] }
thiserror = "1"
