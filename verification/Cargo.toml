[package]
name = "blog_core"
version = "0.1.0"
edition = "2021"
publish = false

[dependencies]
comrak = "=0.44.0"
chrono = "=0.4.45"
rustc_version_runtime = "=0.3.0"

[dependencies.syntect]
version = "=5.3.0"
default-features = false
features = ["default-fancy"]
