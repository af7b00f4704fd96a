[package]
name = "sharded_ledger"
version = "0.1.0"
edition = "2021"
publish = false

[dependencies]
fnv = "1"
csv = "1"
serde = { version = "1", features = ["derive"] }
core_affinity = "*"
num_cpus = "1"
