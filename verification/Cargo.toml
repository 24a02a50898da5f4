[package]
name = "msox"
version = "0.1.0"
edition = "2021"
publish = false

[dependencies]
cfb = "=0.15.0"
codepage = "=0.1.3"
encoding_rs = "=0.8.42"
env_logger = "=0.11.11"
