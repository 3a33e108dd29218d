[package]
name = "rget"
version = "0.1.0"
edition = "2021"
publish = false

[dependencies]
clap = "*"
console = "*"
indicatif = "*"
reqwest = { version = "*", default-features = false, features = ["blocking"] }
