[package]
name = "lcore"
version = "0.1.0"
edition = "2021"
publish = false

[dependencies]
rustc-hash = "1.1"
itertools = "0.9"
indexed_vec = "*"
codespan = "0.9"
codespan-reporting = "0.9"
thiserror = "1.0"
log = "0.4"
once_cell = "1"
clap = { version = "*", features = ["derive"] }
