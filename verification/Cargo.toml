[package]
name = "modelcards"
version = "0.1.0"
edition = "2021"
publish = false

[dependencies]
serde_json = { version = "1", features = ["preserve_order"] }
valico = "*"
minijinja = "*"
serde = { version = "1", features = ["derive"] }
config = "*"
clap = { version = "4", features = ["derive"] }
clap_complete = "4"
clap-verbosity-flag = "*"
env_logger = "*"
log = "0.4"
anyhow = "1"
