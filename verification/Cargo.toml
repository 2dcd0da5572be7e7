[package]
name = "tada"
version = "0.1.0"
edition = "2021"
publish = false

[dependencies]
chrono = "0.4"
clap = "4"
console = "0.15"
date_time_parser = "*"
path-absolutize = "3"
promptly = "*"
rand = "0.8"
reqwest = { version = "0.11", features = ["blocking"] }
substring = "1"
url = "2"
