[package]
name = "caffeinator"
version = "0.1.0"
edition = "2021"
publish = false

[dependencies]
anyhow = "1"
chrono = "0.4"
clap = { version = "4", features = ["derive"] }
clap_complete = "4"
duration-string = "*"
fork = "*"
sysinfo = "0.30"
