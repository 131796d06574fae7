[package]
name = "light_relay"
version = "0.1.0"
edition = "2021"
publish = false

[dependencies]
prost = "=0.7.0"
prost-types = "=0.7.0"
hex = "=0.4.3"
tendermint = "=0.19.0"
tendermint-rpc = { version = "=0.19.0", features = ["http-client"] }
web3 = "=0.16.0"
ethabi = "=14.1.0"
secp256k1 = { version = "=0.20.3", features = ["rand", "rand-std"] }
tokio = { version = "=1.54.1", features = ["full"] }
clap = "=2.34.0"
serde = { version = "=1.0.229", features = ["derive"] }
serde_json = "=1.0.154"
