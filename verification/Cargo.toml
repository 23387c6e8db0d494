[package]
name = "projection_digest"
version = "0.1.0"
edition = "2021"
publish = false

[dependencies]
hex = "*"
plonky2 = "*"
plonky2_field = "*"
plonky2_maybe_rayon = "*"
sha2 = "*"
