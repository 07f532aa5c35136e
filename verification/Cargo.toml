[package]
name = "asdr"
version = "0.1.0"
edition = "2021"
publish = false

[dependencies]
anyhow = "*"
dirs = "*"
is_executable = "*"
num_cpus = "*"
regex = "*"
structopt = "*"
which = "*"
