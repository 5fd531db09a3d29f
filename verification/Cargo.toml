[package]
name = "lurk_supernova"
version = "0.1.0"
edition = "2021"
publish = false

[dependencies]
abomonation = "0.7"
arecibo = "*"
bellpepper-core = "*"
ff = "0.13"
serde = { version = "1", features = ["derive"] }
tracing = "0.1"
