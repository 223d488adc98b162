[package]
name = "dev_workspaces"
version = "0.1.0"
edition = "2021"
publish = false

[dependencies]
anyhow = "1"
clap = { version = "4", features = ["derive"] }
git2 = "*"
home = "*"
serde = { version = "1", features = ["derive"] }
serde_yaml = "0.9"
unicode-width = "*"
