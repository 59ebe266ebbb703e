[package]
name = "flat_template"
version = "0.1.0"
edition = "2021"
publish = false

[dependencies]
dioxus-core = { version = "*", default-features = false }
