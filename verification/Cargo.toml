[package]
name = "debug_span"
version = "0.1.0"
edition = "2021"
publish = false

[dependencies]
proc-macro2 = { version = "1", features = ["span-locations"] }

[dev-dependencies]
syn = "2"
unindent = "0.2"
