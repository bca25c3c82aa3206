[package]
name = "git-branch-manager"
version = "0.1.0"
edition = "2021"
publish = false

[dependencies]
serde = { version = "1", features = ["derive"] }
serde_json = "1"
toml = "*"
git2 = { version = "*", default-features = false }
rusqlite = { version = "*", features = ["bundled"] }
dirs = "*"
clap = { version = "4", features = ["derive"] }
chrono = "*"
gleisbau = "*"
