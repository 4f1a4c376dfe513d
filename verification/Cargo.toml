[package]
name = "hello_contract"
version = "0.1.0"
edition = "2021"
publish = false

[dependencies]
darkfi-serial = "=0.4.2"
