[package]
name = "labrpc"
version = "0.1.0"
edition = "2021"
publish = false

[dependencies]
rand = "*"
futures = "0.1"
futures-cpupool = "0.1"
futures-timer = "0.1"
