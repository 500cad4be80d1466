[package]
name = "analytic_beam"
version = "0.1.0"
edition = "2021"
publish = false

[dependencies]
marlu = { version = "=0.19.0", default-features = false }
ndarray = "=0.16.1"
num-complex = "=0.4.6"
rayon = "=1.12.0"
