[package]
name = "rt_weekend"
version = "0.1.0"
edition = "2021"
publish = false

[dependencies]
impl_ops = "0.1.1"
rand = "0.8"
