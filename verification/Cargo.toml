[package]
name = "observer"
version = "0.1.0"
edition = "2021"
publish = false

[dependencies]
antidote = "1.0"
chrono = "0.4"
colored = "2"
diesel = { version = "1.4", features = ["postgres"] }
failure = "0.1"
lazy_static = "1"
log = "0.4"
log4rs = "1"
r2d2 = "0.8"
r2d2-diesel = "1.0"
serde = { version = "1", features = ["derive"] }
serde_json = "1"
uuid = { version = "1", features = ["v4"] }
