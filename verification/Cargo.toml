[package]
name = "asmcore"
version = "0.1.0"
edition = "2021"

[dependencies]
text_io = "0.1"
