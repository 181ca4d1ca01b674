[package]
name = "may_core"
version = "0.1.0"
edition = "2021"
publish = false

[dependencies]
taffy = "*"
dashmap = "*"
peniko = "*"
femtovg = "*"
winit = "*"
mint = "*"
