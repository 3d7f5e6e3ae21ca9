[package]
name = "pup_commands"
version = "0.1.0"
edition = "2021"
publish = false

[dependencies]
regex = "1"
shell-words = "1"
url = "2"
chrono = "0.4"
serde = { version = "1", features = ["derive"] }
serde_json = "1"
serde_norway = "*"
anyhow = "1"
gethostname = "*"
clap = { version = "4", features = ["derive"] }
rand = "*"
tokio = { version = "1", features = ["rt", "time", "macros"] }
async-trait = "*"
