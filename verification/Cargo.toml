[package]
name = "file_hasher_core"
version = "0.1.0"
edition = "2021"
publish = false

[dependencies]
blake2 = "0.10"
hex = "0.4"
rayon = "1"
itertools = "0.10"
chrono = "0.4"
filetime = "0.2"
structopt = "0.3"
