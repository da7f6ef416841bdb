[package]
name = "saimin"
version = "0.1.0"
edition = "2021"
publish = false

[dependencies]
arrow = { version = "=60.0.0", default-features = false, features = ["ipc"] }
noodles = { version = "=0.117.0", features = ["bam", "bgzf", "core", "sam"] }
