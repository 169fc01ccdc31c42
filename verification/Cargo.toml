[package]
name = "rcaptcha"
version = "0.1.0"
edition = "2021"
publish = false

[dependencies]
image = "0.24"
imageproc = "0.23"
rusttype = "0.9"
rand = "0.8"
jni = "0.21"
thiserror = "1"
