[package]
name = "flavours"
version = "0.1.0"
edition = "2021"
publish = false

[dependencies]
anyhow = "*"
base16_color_scheme = "*"
calm_io = "*"
clap = { version = "4", features = ["derive"] }
clap_complete = "4"
dirs = "*"
glob = "*"
hex = "*"
serde_json = "*"
serde_yaml = "*"

[dev-dependencies]
tempfile = "*"
