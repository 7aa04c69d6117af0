[package]
name = "segmentation_etna"
version = "0.1.0"
edition = "2021"
publish = false

[dependencies]
rand = "0.9"
crabcheck = "*"
proptest = "1"
quickcheck = "1"
hegel = "*"
