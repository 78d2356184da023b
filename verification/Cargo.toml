[package]
name = "stitchy"
version = "0.1.0"
edition = "2021"
publish = false

[dependencies]
image = "=0.25.10"
jni = "=0.22.4"
