[package]
name = "hypnagogic_core"
version = "0.1.0"
edition = "2021"
publish = false

[dependencies]
image = { version = "*", default-features = false, features = ["png"] }
dmi = "*"
serde = { version = "1", features = ["derive"] }
toml = "*"
thiserror = "*"
user-error = "*"
tracing = "0.1"
tracing-subscriber = "*"
clap = { version = "4", features = ["derive"] }
walkdir = "2"
rayon = "1"
anyhow = "1"
owo-colors = "*"
dont_disappear = "*"
