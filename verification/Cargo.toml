[package]
name = "atosl"
version = "0.1.0"
edition = "2021"
publish = false

[dependencies]
anyhow = "1"
clap = { version = "3", features = ["derive"] }
gimli = "0.26"
memmap = "0.7"
object = "0.28"
symbolic-common = "8"
symbolic-demangle = "8"
