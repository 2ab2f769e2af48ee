[package]
name = "erc20_balances"
version = "0.1.0"
edition = "2021"
publish = false

[dependencies]
substreams = "=0.7.6"
substreams-ethereum = "=0.11.1"
substreams-abis = "=0.7.12"
substreams-entity-change = "=2.0.0"
substreams-database-change = "=2.1.2"
prost = "=0.13.5"
prost-types = "=0.13.5"
hex = "=0.4.3"
