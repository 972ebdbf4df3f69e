[package]
name = "world_graph"
version = "0.1.0"
edition = "2021"
publish = false

[dependencies]
attohttpc = { version = "*", default-features = false, features = ["json"] }
bincode = "1"
dashmap = "5"
rayon = "1"
serde = { version = "1", features = ["derive"] }
serde_json = "1"
tinystr = "0.4"
