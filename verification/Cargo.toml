[package]
name = "percpu"
version = "0.1.0"
edition = "2021"
publish = false

[dependencies]
cfg-if = "*"
spin = "*"
x86 = "*"
