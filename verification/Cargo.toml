[package]
name = "poker_log_parser"
version = "0.1.3"
edition = "2021"
publish = false

[dependencies]
memchr = "2"
rayon = "1"
