[package]
name = "apcore_cli"
version = "0.9.0"
edition = "2021"
publish = false

[dependencies]
regex = "1"
comfy-table = "7"
serde = { version = "1", features = ["derive"] }
serde_json = { version = "1", features = ["preserve_order"] }
serde_yaml = "0.9"
serde_yaml_ng = "0.10"
clap = { version = "4", features = ["derive", "string"] }
clap_complete = "4"
tokio = { version = "1", features = ["full"] }
tracing = "0.1"
tracing-subscriber = { version = "0.3", features = ["env-filter"] }
thiserror = "1"
anyhow = "1"
async-trait = "0.1"
apcore = "*"
apcore-toolkit = "*"
