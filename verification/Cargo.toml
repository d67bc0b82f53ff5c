[package]
name = "config_crap"
version = "0.1.0"
edition = "2021"
publish = false

[dependencies]
regex = "1"
minijinja = "2"
chrono = "0.4"
url = "2"
serde = { version = "1", features = ["derive"] }
serde_json = "1"
json5 = "*"
toml = "*"
serde_yaml = "*"
ron = "*"
tower = { version = "0.5", features = ["util", "make"] }
tokio = { version = "1", features = ["sync"] }
futures-util = "0.3"
mirror-mirror = "*"
mlua = { version = "*", features = ["lua54", "vendored", "serialize"] }
reqwest = { version = "0.12", default-features = false, features = ["json"] }
time = { version = "0.3", features = ["serde"] }
thiserror = "*"
anyhow = "1"
