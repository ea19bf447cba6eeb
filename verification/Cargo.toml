[package]
name = "ray_tracing_engine"
version = "0.1.0"
edition = "2021"

[dependencies]
ctrlc = "3"
