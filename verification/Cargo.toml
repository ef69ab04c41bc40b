[package]
name = "server_box"
version = "0.1.0"
edition = "2021"
publish = false

[dependencies]
clap = { version = "*", features = ["derive"] }
confy = "*"
inquire = "*"
reqwest = { version = "*", default-features = false, features = ["blocking"] }
