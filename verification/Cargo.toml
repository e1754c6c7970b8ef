[package]
name = "dom_reflect"
version = "0.1.0"
edition = "2021"
publish = false

[dependencies]
kuchiki = "0.8"
