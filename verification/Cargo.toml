[package]
name = "easy_worktree"
version = "0.2.24"
edition = "2021"
publish = false

[dependencies]
chrono = "0.4"
serde_json = "1"
sha1 = "0.10"
toml = "0.8"
