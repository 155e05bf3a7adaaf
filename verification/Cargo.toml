[package]
name = "cdda_map_editor"
version = "0.1.0"
edition = "2021"
publish = false

[dependencies]
rand = "0.9"
indexmap = "2"
comfy-bounded-ints = "*"
serde = { version = "1", features = ["derive"] }
serde_json = "1"
