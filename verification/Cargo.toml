[package]
name = "mlua_serde"
version = "0.1.0"
edition = "2021"
publish = false

[dependencies]
mlua = { version = "0.8", features = ["lua54", "vendored"] }
serde = { version = "1", features = ["derive"] }
thiserror = "1"
