[package]
name = "rust_csv_reader"
version = "0.1.0"
edition = "2021"
publish = false

[dependencies]
memchr = "2"
fast-float = "0.2"
memmap = "0.7"
clap = { version = "4", features = ["derive"] }
