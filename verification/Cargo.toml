[package]
name = "lgbm"
version = "0.1.0"
edition = "2021"
publish = false

[dependencies]
derive-ex = "*"
lgbm-sys = "*"
parse-display = "*"
serde = { version = "1", features = ["derive"] }
text-grid = "*"
