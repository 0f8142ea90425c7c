[package]
name = "octave_core"
version = "0.1.0"
edition = "2021"
publish = false

[dependencies]
sha2 = "*"
hmac = "*"
uuid = { version = "*", features = ["v4"] }
unicode-normalization = "*"
unicode-casefold = "*"
serde = { version = "1", features = ["derive"] }
serde_json = "1"
time = { version = "*", features = ["formatting"] }
