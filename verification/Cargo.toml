[package]
name = "au_trx"
version = "0.1.0"
edition = "2021"
publish = false

[dependencies]
frame-header = "*"
rtrb = "*"
