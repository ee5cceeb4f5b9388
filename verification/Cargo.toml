[package]
name = "blackjack_table"
version = "0.1.0"
edition = "2021"
publish = false

[dependencies]
rand = "=0.7.3"
rand_chacha = "=0.2.2"
rs_poker = "=2.0.0"
schemars = "=0.7.6"
secret-cosmwasm-std = "=0.10.1"
secret-cosmwasm-storage = "=0.10.0"
secret-toolkit = "=0.2.0"
serde = { version = "=1.0.229", features = ["derive"] }
serde-json-wasm = "=0.2.3"
sha2 = "=0.9.9"
