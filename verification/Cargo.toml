[package]
name = "enrich"
version = "0.1.0"
edition = "2021"
publish = false

[dependencies]
adjustp = "*"
async-lock = "*"
futures = "*"
rayon = "*"
retainer = "*"
uuid = { version = "*", features = ["v4"] }
