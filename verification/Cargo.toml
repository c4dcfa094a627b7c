[package]
name = "background_fission"
version = "0.1.0"
edition = "2021"
publish = false

[dependencies]
image = { version = "0.24", default-features = false, features = ["png", "jpeg", "bmp", "gif"] }
rand = "0.8"
dirs = "*"
dconf_rs = "*"
job_scheduler = "*"
serde = { version = "1", features = ["derive"] }
serde_json = "1"
thread-priority = "*"
