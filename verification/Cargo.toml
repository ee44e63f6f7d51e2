[package]
name = "screeps-profiler"
version = "0.1.0"
edition = "2021"
publish = false

[dependencies]
lazy_static = "1"
log = "0.4"
screeps-game-api = "*"
serde = { version = "1", features = ["derive"] }
serde_json = "1"
