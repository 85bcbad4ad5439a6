[package]
name = "silly_ecs"
version = "0.1.0"
edition = "2021"
publish = false

[dependencies]
Inflector = { version = "=0.11.4", default-features = false }
proc-macro2 = "=1.0.107"
quote = "=1.0.47"
syn = { version = "=1.0.109", features = ["full"] }
unicode-ident = "=1.0.26"
