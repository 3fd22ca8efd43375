[package]
name = "ktane_utils"
version = "0.1.0"
edition = "2021"
publish = false

[dependencies]
regex = "=1.13.1"
phf = { version = "=0.14.0", features = ["macros"] }
strum = { version = "=0.28.0", features = ["derive"] }
cairo-rs = { version = "=0.22.9", features = ["png"] }
serenity = { version = "=0.12.5", default-features = false }
