[package]
name = "index_pgn"
version = "0.1.0"
edition = "2021"
publish = false

[dependencies]
btoi = "=0.1.3"
rand = "=0.4.6"
pgn-reader = "0.11"
memmap = "=0.6.2"
madvise = "=0.1.0"
