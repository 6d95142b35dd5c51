[package]
name = "audit-trail"
version = "0.2.0"
edition = "2021"
publish = false

[dependencies]
sha2 = { version = "0.10", default-features = false }
