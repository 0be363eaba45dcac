[package]
name = "rpgmv_tool"
version = "0.1.0"
edition = "2021"
publish = false

[dependencies]
md-5 = "*"
base16ct = "*"
regex = "*"
serde = { version = "*", features = ["derive"] }
serde_json = "*"
toml = "*"
anyhow = "*"
thiserror = "*"
clap = { version = "*", features = ["derive"] }
clap_complete = "*"
argh = "*"
allsorts = "*"
ouroboros = "*"
