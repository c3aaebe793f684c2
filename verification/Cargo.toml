[package]
name = "counter_import"
version = "0.1.0"
edition = "2021"
publish = false

[dependencies]
chrono = "*"
crossbeam = "*"
csv = "*"
dotenvy = "*"
log = "*"
oracle = "*"
simplelog = "*"
