[package]
name = "tailcall"
version = "0.1.0"
edition = "2021"
publish = false

[dependencies]
anyhow = "*"
async-graphql = "*"
clap = { version = "*", features = ["derive"] }
convert_case = "*"
dotenvy = "*"
inquire = "*"
serde = { version = "*", features = ["derive"] }
serde_yaml = "*"
stripmargin = "*"
