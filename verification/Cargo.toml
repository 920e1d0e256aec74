[package]
name = "bugsink"
version = "1.0.0"
edition = "2021"
publish = false

[dependencies]
serde_json = "=1.0.154"
serde_yaml = "0.9"
ureq = "=3.5.1"
clap = { version = "=4.6.7", features = ["derive"] }
rpassword = "=7.5.4"
