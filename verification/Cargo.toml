[package]
name = "tercen_http"
version = "0.1.0"
edition = "2021"
publish = false

[dependencies]
url = "1"
bytes = "0.4"
hyper = "0.10"
