[package]
name = "beta_fit"
version = "0.1.0"
edition = "2021"
publish = false

[dependencies]
clap = { version = "4", features = ["derive"] }
opener = "*"
plotters = "0.3"
statrs = "*"
tempfile = "3"
