[package]
name = "audiobook_organizer"
version = "0.1.0"
edition = "2021"
publish = false

[dependencies]
clap = { version = "*", features = ["derive"] }
colored = "*"
lofty = "*"
serde = { version = "*", features = ["derive"] }
serde_json = "*"
walkdir = "*"
