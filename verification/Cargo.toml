[package]
name = "sparse_matrix"
version = "0.1.0"
edition = "2021"
publish = false

[dependencies]
bincode = "1.3"
camino = "1.1"
ff = "0.13"
halo2curves = { version = "0.6", features = ["derive_serde"] }
home = "0.5"
itertools = "0.12"
once_cell = "1"
rayon = "1"
serde = { version = "1", features = ["derive"] }
