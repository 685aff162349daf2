[package]
name = "writekit"
version = "0.1.0"
edition = "2021"
publish = false

[dependencies]
clap = "=2.34.0"
indicatif = "=0.17.11"
notify = "=4.0.18"
