[package]
name = "actix-web-nextjs"
version = "0.1.0"
edition = "2021"
publish = false

[dependencies]
actix-files = "0.6"
actix-service = "2"
actix-web = { version = "4", default-features = false }
anyhow = "1"
glob = "0.3"
once_cell = "1"
path-tree = "*"
regex = "1"
thiserror = "1"
tracing = "0.1"
