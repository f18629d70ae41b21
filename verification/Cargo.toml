[package]
name = "kulupu"
version = "0.1.0"
edition = "2021"
publish = false

[dependencies]
hex = "=0.4.3"
serde_json = "=1.0.154"
jsonrpc-core = "=14.2.0"
jsonrpc-pubsub = "=14.2.0"
jsonrpc-ws-server = "=14.2.0"
log = "=0.4.35"
parity-scale-codec = "=1.3.7"
sp-core = "=2.0.1"
sp-inherents = "=2.0.1"
sp-timestamp = "=2.0.1"
# sp-core 2.0.1 does not build with a later one, which brings a second schnorrkel.
substrate-bip39 = "=0.4.2"
