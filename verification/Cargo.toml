[package]
name = "marco"
version = "0.1.0"
edition = "2021"
publish = false

[dependencies]
anyhow = "1"
clap = { version = "4", features = ["derive", "env"] }
dom_query = "*"
glob = "0.3"
markdown = "1"
rayon = "1"
serde = { version = "1", features = ["derive"] }
serde_json = "1"
serde_yml = "*"
shell-words = "1"
similar = "2"
