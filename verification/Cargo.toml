[package]
name = "minion_sim"
version = "0.1.0"
edition = "2021"
publish = false

[dependencies]
fastrand = "1"
rusty_neat = "*"
