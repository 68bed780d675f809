[package]
name = "seq_io_parallel"
version = "0.1.0"
edition = "2021"
publish = false

[dependencies]
anyhow = "*"
crossbeam-channel = "*"
parking_lot = "*"
seq_io = "*"
