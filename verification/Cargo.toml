[package]
name = "cargo-count"
version = "0.3.0"
edition = "2021"
publish = false

[dependencies]
ansi_term = "0.12"
clap = "2"
gitignore = "1"
glob = "0.3"
memmap = "0.7"
regex = "1"
tabwriter = "1"
