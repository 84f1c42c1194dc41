[package]
name = "wcvp"
version = "0.1.0"
edition = "2021"
publish = false

[dependencies]
zip = "*"
calamine = "*"
csv = "*"
reqwest = { version = "*", default-features = false }
tokio = { version = "*", features = ["fs"] }
