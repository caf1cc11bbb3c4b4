[package]
name = "perch"
version = "0.1.0"
edition = "2021"
publish = false

[dependencies]
console = "0.16"
ctrlc = "3"
indicatif = "0.18"
libc = "0.2"
thiserror = "2"
