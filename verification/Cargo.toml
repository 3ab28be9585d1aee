[package]
name = "drshell"
version = "0.1.0"
edition = "2021"
publish = false

[dependencies]
shlex = "1"
lazy_static = "1"
rustyline = "*"
