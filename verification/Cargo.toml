[package]
name = "query_trails"
version = "0.1.0"
edition = "2021"
publish = false

[dependencies]
graphql-parser = "*"
heck = "*"
proc-macro2 = "*"
quote = "*"
