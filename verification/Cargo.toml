[package]
name = "capnpc_core"
version = "0.1.0"
edition = "2021"
publish = false

[dependencies]
multimap = "=0.10.1"
