[package]
name = "end_model"
version = "0.1.0"
edition = "2021"
publish = false

[dependencies]
vector-map = "*"
thiserror = "*"
clap = { version = "4", features = ["derive"] }
serde = { version = "1", features = ["derive"] }
toml = "*"
mlua = { version = "*", features = ["lua54", "vendored"] }
