[package]
name = "pwm"
version = "0.1.0"
edition = "2021"
publish = false

[dependencies]
penrose = "*"
penrose_ui = "*"
serde = { version = "1", features = ["derive"] }
toml = "*"
tracing = "*"
tracing-subscriber = { version = "*", features = ["env-filter"] }
