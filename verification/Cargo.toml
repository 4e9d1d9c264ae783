[package]
name = "sitegen"
version = "0.1.0"
edition = "2021"
publish = false

[dependencies]
tera = "=1.20.1"
pulldown-cmark = "=0.13.4"
