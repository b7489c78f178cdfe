[package]
name = "ckb_vtx"
version = "0.1.0"
edition = "2021"
publish = false

[dependencies]
ckb-types = "*"
serde = { version = "1", features = ["derive"] }
serde_json = "1"
thiserror = "*"
