[package]
name = "server_boot"
version = "0.1.0"
edition = "2021"
publish = false

[dependencies]
ruma = { version = "*", default-features = false }
tokio = { version = "*", default-features = false, features = ["rt-multi-thread", "net", "time"] }
num_cpus = "*"
clap = { version = "*", features = ["derive"] }
