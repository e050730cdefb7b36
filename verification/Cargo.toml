[package]
name = "ebook_sort"
version = "0.1.0"
edition = "2021"
publish = false

[dependencies]
clap = { version = "*", features = ["derive"] }
comfy-table = "*"
epub = "*"
eyre = "*"
indicatif = "*"
thiserror = "*"
walkdir = "*"
