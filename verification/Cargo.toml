[package]
name = "jni_marshal"
version = "0.1.0"
edition = "2021"
publish = false

[dependencies]
jni = "*"
