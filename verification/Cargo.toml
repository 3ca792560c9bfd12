[package]
name = "sifter"
version = "0.1.0"
edition = "2021"
publish = false

[dependencies]
anyhow = "*"
ctrlc = "*"
etcetera = "*"
jiff = "*"
reqwest = { version = "*", default-features = false, features = ["blocking", "json"] }
serde = { version = "*", features = ["derive"] }
serde_json = "*"
