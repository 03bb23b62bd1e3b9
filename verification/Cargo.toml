[package]
name = "heightmap"
version = "0.5.0"
edition = "2021"
publish = false

[dependencies]
brs = "*"
clap = { version = "*", features = ["derive"] }
image = { version = "*", default-features = false, features = ["png"] }
openexr = "*"
