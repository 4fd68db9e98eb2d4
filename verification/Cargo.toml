[package]
name = "recur_func_parser"
version = "1.0.0"
edition = "2021"
publish = false

[dependencies]
thiserror = "1"
