[package]
name = "selfie_records_sdk"
version = "0.1.0"
edition = "2021"
publish = false

[dependencies]
trust-dns-resolver = "*"
log = "*"
simple_logger = "*"
