[package]
name = "envy_store"
version = "0.1.0"
edition = "2021"
publish = false

[dependencies]
envy = "*"
rusoto_core = { version = "*", default-features = false, features = ["rustls"] }
rusoto_ssm = { version = "*", default-features = false, features = ["rustls"] }
serde = "*"
futures = "*"
