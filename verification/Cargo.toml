[package]
name = "techxt"
version = "0.1.0"
edition = "2021"
publish = false

[dependencies]
unicode-width = "*"
techy = "*"
techy-xp = "*"
stacker = "*"
clap = { version = "4", features = ["derive"] }
