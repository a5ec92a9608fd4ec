[package]
name = "sample_buffers"
version = "0.1.0"
edition = "2021"
publish = false

[dependencies]
dasp_sample = "0.11"
itertools = "*"
