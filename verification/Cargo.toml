[package]
name = "nautilus_tenant"
version = "0.1.0"
edition = "2021"
publish = false

[dependencies]
anyhow = "1"
nautilus-core = "0.54"
nautilus-model = { version = "0.54", default-features = false }
serde = { version = "1", features = ["derive"] }
thiserror = "2"
