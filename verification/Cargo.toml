[package]
name = "city-tavern"
version = "0.1.0"
edition = "2021"
publish = false

[dependencies]
anyhow = "1"
async-trait = "0.1"
bitcoin = { version = "=0.32.102", features = ["rand-std"] }
ddk = { version = "=0.0.14", default-features = false }
# Pinned for ddk 0.0.14, which does not build with ddk-manager 0.7.7: the message
# types of that version are not those of dlc-messages.
ddk-manager = "=0.7.3"
dlc-messages = "=0.7.1"
lightning = "=0.0.125"
lightning-net-tokio = "=0.0.125"
tokio = { version = "1", features = ["full"] }
tracing = "0.1"
tracing-subscriber = "0.3"
