[package]
name = "ferrunix"
version = "0.1.0"
edition = "2021"
publish = false

[dependencies]
hashbrown = "0.14"
inventory = "0.3"
once_cell = "1"
petgraph = "0.6"
thiserror = "1"
