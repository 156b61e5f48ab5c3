[package]
name = "walk_scaling"
version = "0.1.0"
edition = "2021"
publish = false

[dependencies]
clap = { version = "4", features = ["derive"] }
crossterm = "*"
plotly = "*"
rand = "0.8"
GSL = "*"
serde = { version = "1", features = ["derive"] }
serde_json = "1"
