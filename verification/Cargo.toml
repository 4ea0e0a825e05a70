[package]
name = "prisma_scaffold"
version = "0.1.0"
edition = "2021"

[dependencies]
dialoguer = { version = "0.11", features = ["fuzzy-select"] }
serde = { version = "1", features = ["derive"] }
serde_json = "1"
