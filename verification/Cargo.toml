[package]
name = "amq_protocol_native"
version = "0.1.0"
edition = "2021"
publish = false

[dependencies]
bytes = "1"
magnus = "0.7"
thiserror = "1"
