[package]
name = "permutation_stark"
version = "0.1.0"
edition = "2021"
publish = false

[dependencies]
winterfell = "0.7"
