[package]
name = "fiudp_cli"
version = "0.2.0"
edition = "2021"
publish = false

[dependencies]
chacha20poly1305 = "0.10"
reed-solomon-erasure = "6"
rand = "0.8"
clap = { version = "4", features = ["derive"] }
