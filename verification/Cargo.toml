[package]
name = "codemode"
version = "0.1.0"
edition = "2021"
publish = false

[dependencies]
boa_engine = "0.21"
boa_gc = "0.21"
serde_json = "1"
