[package]
name = "query_wire"
version = "0.1.0"
edition = "2021"
publish = false
