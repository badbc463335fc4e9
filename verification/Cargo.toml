[package]
name = "armor_trims"
version = "0.1.0"
edition = "2021"
publish = false

[dependencies]
anyhow = "*"
quartz_nbt = { version = "*", features = ["serde"] }
serde = { version = "*", features = ["derive"] }
