[package]
name = "speculate2"
version = "0.1.0"
edition = "2021"
publish = false

[dependencies]
unicode-xid = "*"
proc-macro2 = "*"
syn = "*"
