[package]
name = "container-runtime"
version = "0.1.0"
edition = "2021"
publish = false

[dependencies]
anyhow = "1"
clap = { version = "4", features = ["derive"] }
nix = { version = "0.29", features = ["fs", "mount", "process", "sched", "signal", "user"] }
num_cpus = "1"
rand = "0.9"
