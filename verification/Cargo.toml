[package]
name = "backup_restore"
version = "0.1.0"
edition = "2021"
publish = false

[dependencies]
anyhow = "1"
clap = { version = "4", features = ["derive"] }
console = "0.15"
dialoguer = "0.11"
indicatif = "0.17"
rayon = "1"
walkdir = "2"

[dev-dependencies]
tempfile = "3"
