[package]
name = "enoki_wrapped_token"
version = "0.1.0"
edition = "2021"
publish = false

[dependencies]
candid = "0.10"
ic-cdk = "0.17"
ic-cdk-macros = "0.17"
futures = "0.3"
serde = { version = "1", features = ["derive"] }
