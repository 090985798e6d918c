[package]
name = "upgrade_harness"
version = "0.1.0"
edition = "2021"
publish = false

[dependencies]
hex = "=0.4.3"
rand = "=0.8.8"
subxt = "=0.25.0"
# Held back for sp-core 7: later releases build on a newer schnorrkel
# than the one sp-core 7 takes its keys from.
substrate-bip39 = "=0.4.4"
parity-scale-codec = { version = "=3.7.5", features = ["derive"] }
serde = { version = "=1.0.229", features = ["derive"] }
serde_json = "=1.0.154"
tokio = { version = "=1.54.1", features = ["macros", "rt-multi-thread", "time"] }
tracing-subscriber = "=0.3.23"
