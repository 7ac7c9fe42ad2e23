[package]
name = "chest"
version = "0.1.0"
edition = "2021"
publish = false

[dependencies]
ring = "*"
flate2 = "*"
clap = { version = "*", features = ["derive"] }
console = "*"
once_cell = "*"
