[package]
name = "rcache"
version = "0.1.0"
edition = "2021"
publish = false

[dependencies]
bytes = "0.4"
clap = "2"
deque = "0.3"
futures = "0.1"
futures-cpupool = "0.1"
lru-cache = "0.1"
tokio-core = "0.1"
tokio-io = "0.1"
tokio-proto = "0.1"
tokio-service = "0.1"
