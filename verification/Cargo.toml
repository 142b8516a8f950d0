[package]
name = "gosh"
version = "0.1.0"
edition = "2021"
publish = false

[dependencies]
cod = "=9.0.5"
dirs = "=7.0.0"
liner = "=0.3.2"
regex = "=1.13.1"
