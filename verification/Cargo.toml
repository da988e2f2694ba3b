[package]
name = "pgrep"
version = "0.1.0"
edition = "2021"

[dependencies]
regex = "1"
linked-hash-map = "0.5"
termcolor = "1"
