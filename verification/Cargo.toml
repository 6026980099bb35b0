[package]
name = "tasru"
version = "0.1.0"
edition = "2021"
publish = false

[dependencies]
gimli = "0.31"
object = { version = "0.36", features = ["write"] }
rustc-demangle = "0.1"
