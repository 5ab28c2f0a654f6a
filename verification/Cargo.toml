[package]
name = "rbrt"
version = "0.1.0"
edition = "2021"
publish = false

[dependencies]
clap = "4"
image = "0.25"
rand = "0.8"
rayon = "1"
serde = { version = "1", features = ["derive"] }
serde_yaml = "0.9"
tobj = "*"
