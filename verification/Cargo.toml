[package]
name = "pixel_text"
version = "0.1.0"
edition = "2021"
publish = false

[dependencies]
hex-string = "*"
load_image = "*"
tumblr_api = "*"
reqwest = { version = "*", default-features = false }
tokio = { version = "*", features = ["macros", "rt-multi-thread"] }
