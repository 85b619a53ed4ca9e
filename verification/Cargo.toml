[package]
name = "quartz_messenger"
version = "0.1.0"
edition = "2021"
publish = false

[dependencies]
clap = "3"
colored = "2"
futures = "0.3"
tokio = { version = "1", features = ["macros", "rt-multi-thread"] }
