[package]
name = "xsd_to_rs"
version = "0.1.0"
edition = "2021"
publish = false

[dependencies]
roxmltree = "=0.21.1"
proc-macro2 = "1"
quote = "1"
syn = "2"
structmeta = "0.3"
