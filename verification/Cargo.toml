[package]
name = "comic_encoder"
version = "0.1.0"
edition = "2021"
publish = false

[dependencies]
clap = { version = "*", features = ["derive"] }
fern = { version = "*", features = ["colored"] }
log = "*"
pdf = "*"
zip = { version = "*", default-features = false, features = ["deflate"] }
