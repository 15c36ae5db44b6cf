[package]
name = "cortex_m4_sim"
version = "0.1.0"
edition = "2021"
publish = false

[dependencies]
capstone = "=0.14.0"
object = "=0.40.0"
rustc-hash = "*"
