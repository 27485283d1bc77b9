[package]
name = "rebalancer"
version = "0.1.0"
edition = "2021"
publish = false

[dependencies]
alloy = { version = "=1.0.42", default-features = false, features = ["std", "network", "provider-http", "reqwest", "rpc-types", "signer-local", "sol-types"] }
eyre = "=0.6.14"
reqwest = { version = "=0.12.28", default-features = false }
tokio = { version = "=1.54.1", features = ["macros", "rt-multi-thread", "signal", "time"] }
