[package]
name = "rf_eq"
version = "0.2.0"
edition = "2021"
publish = false

[dependencies]
libm = "=0.2.16"
hound = "=3.5.1"
