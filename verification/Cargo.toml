[package]
name = "cat_editor"
version = "0.1.0"
edition = "2021"
publish = false

[dependencies]
fuzzy-matcher = "0.3"
ignore = "0.4"
once_cell = "1"
serde = { version = "1", features = ["derive"] }
serde_json = "1"
