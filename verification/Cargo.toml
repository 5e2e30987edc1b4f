[package]
name = "ockam"
version = "0.1.0"
edition = "2021"
publish = false

[dependencies]
hashbrown = "0.11"
clap = { version = "4", features = ["derive"] }
comfy-table = "*"
ctrlc = "*"
dotenv = "*"
human-panic = "*"
log = "*"
serde = { version = "1", features = ["derive"] }
serde_bare = "*"
