[package]
name = "lv2xdo"
version = "0.1.0"
edition = "2021"
publish = false

[dependencies]
lv2 = { version = "0.6.0", features = ["wmidi"] }
wmidi = "3.1.0"
