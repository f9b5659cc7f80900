[package]
name = "castit"
version = "0.1.0"
edition = "2021"
publish = false

[dependencies]
nucleo-matcher = "0.3"
linicon = "2"
xdg = "3"
toml = "0.9"
serde = { version = "1", features = ["derive"] }
