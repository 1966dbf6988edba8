[package]
name = "consensus_manager"
version = "0.1.0"
edition = "2021"
publish = false

[dependencies]
futures = "0.3"
metrics = "0.21"
papyrus_common = "=0.4.0-rc.0"
starknet_api = "*"
tokio = { version = "1", features = ["macros", "rt", "time"] }
tracing = "0.1"
