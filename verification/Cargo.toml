[package]
name = "lifekit"
version = "0.1.0"
edition = "2021"
publish = false

[dependencies]
zeroize = "1"
serde = { version = "1", features = ["derive"] }
toml = "0.8"

[dev-dependencies]
xkeysym = "0.2"
