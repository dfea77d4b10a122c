[package]
name = "tinyrender"
version = "0.1.0"
edition = "2021"
publish = false

[dependencies]
image = { version = "0.24", default-features = false, features = ["png", "tga"] }
num-traits = "0.2"
rand = "0.7"
axum = "0.6"
tokio = { version = "1", features = ["macros", "rt-multi-thread"] }
