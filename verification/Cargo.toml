[package]
name = "tinysound"
version = "0.1.0"
edition = "2021"
publish = false

[dependencies]
libpulse-binding = "2"
num-complex = "0.4"
rand = "0.8"
term_size = "0.3"
thiserror = "1"
