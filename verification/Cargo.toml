[package]
name = "position_index"
version = "0.1.0"
edition = "2021"
publish = false

[dependencies]
shakmaty = "*"
pgn-reader = "*"
rusqlite = { version = "*", features = ["bundled"] }
anyhow = "*"
