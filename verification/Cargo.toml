[package]
name = "qeval"
version = "0.1.0"
edition = "2021"
publish = false

[dependencies]
num-bigint = "0.4"
rand = "0.8"
rustc_apfloat = "0.2"
thiserror = "1"
miette = "5"
