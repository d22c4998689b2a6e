[package]
name = "adaptive_compute"
version = "0.1.0"
edition = "2021"
publish = false

[dependencies]
num_cpus = "1"
rayon = "1"
smallvec = "1"
