[package]
name = "covid_cert_uvci"
version = "0.1.0"
edition = "2021"
publish = false

[dependencies]
luhn-rs = "*"
