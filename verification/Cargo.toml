[package]
name = "log_upload"
version = "0.1.0"
edition = "2021"
publish = false

[dependencies]
aws = "*"
tempdir = "*"
