[package]
name = "shove"
version = "0.1.0"
edition = "2021"
publish = false

[dependencies]
atty = "0.2"
clap = { version = "3", features = ["derive"] }
lazy_static = "1"
log = "0.4"
pathdiff = "0.2"
regex = "1"
same-file = "1"
serde = { version = "1", features = ["derive"] }
shellexpand = "2"
termcolor = "1"
toml = "0.5"
walkdir = "2"
