[package]
name = "ssh_action"
version = "0.1.0"
edition = "2021"
publish = false

[dependencies]
clg = "=0.0.5"
log = "=0.4.34"
shlex = "=2.0.1"
wasm-bindgen = "=0.2.92"
