[package]
name = "stylometry"
version = "0.1.0"
edition = "2021"

[dependencies]
rand = "0.8"
glob = "0.3"
regex = "1"
