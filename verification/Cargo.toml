[package]
name = "fenestre"
version = "0.1.0"
edition = "2021"
publish = false

[dependencies]
xkbcommon = { version = "*", default-features = false }
regex = "1"
serde = { version = "1", features = ["derive"] }
serde_json = "1"
toml = "*"
mlua = { version = "*", features = ["lua54", "vendored"] }
