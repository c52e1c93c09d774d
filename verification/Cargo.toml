[package]
name = "gamelog"
version = "0.1.0"
edition = "2021"
publish = false

[dependencies]
select = "*"
hyper = { version = "*", features = ["client", "http1"] }
