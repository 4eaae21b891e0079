[package]
name = "svd2rust"
version = "0.1.0"
edition = "2021"
publish = false

[dependencies]
either = "1"
inflections = "=1.1.1"
quote = "=0.3.15"
svd-parser = "=0.14.10"
syn = "=0.11.11"
