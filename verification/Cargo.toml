[package]
name = "amqp_session"
version = "0.1.0"
edition = "2021"
publish = false

[dependencies]
slab = "*"
uuid = { version = "*", features = ["v4"] }
futures = "0.1"
bytes = "*"
