[package]
name = "ottrin"
version = "0.1.0"
edition = "2021"
publish = false

[dependencies]
regex = "1"
globset = "0.4"
serde = { version = "1", features = ["derive"] }
serde_json = "1"
thiserror = "*"
rusqlite = { version = "*", features = ["bundled"] }
walkdir = "2"
notify = "*"
trash = "*"
opener = "*"
lopdf = "*"
lofty = "*"
zip = { version = "*", default-features = false, features = ["deflate"] }
