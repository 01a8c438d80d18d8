[package]
name = "kftun"
version = "0.1.0"
edition = "2021"
publish = false

[dependencies]
socket2 = { version = "0.6", features = ["all"] }
stunclient = "0.4"
