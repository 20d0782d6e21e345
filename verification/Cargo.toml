[package]
name = "meridian"
version = "0.1.0"
edition = "2021"
publish = false

[dependencies]
image = "*"
reqwest = { version = "*", default-features = false, features = ["blocking"] }
tokio = { version = "*", features = ["rt-multi-thread"] }
futures = "*"
indicatif = "*"
log = "*"
pretty_env_logger = "*"
once_cell = "*"
imagesize = "*"

[dev-dependencies]
json = "*"
