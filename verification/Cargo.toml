[package]
name = "opencan"
version = "0.1.0"
edition = "2021"
publish = false

[dependencies]
bimap = { version = "0.6", features = ["serde"] }
bitvec = "1"
textwrap = "0.16"
serde = { version = "1", features = ["derive"] }
serde_yaml = "0.9"
serde_json = "1"
clap = { version = "4", features = ["derive"] }
anyhow = "1"
thiserror = "1"
can-dbc = "*"
git-version = "0.3"
indoc = "2"
