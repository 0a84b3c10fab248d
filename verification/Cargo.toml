[package]
name = "fit_parser"
version = "0.1.0"
edition = "2021"
publish = false

[dependencies]
byteorder = "1"
convert_case = "0.6"
csv = "1"
