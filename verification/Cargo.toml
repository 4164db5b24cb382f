[package]
name = "blockmeta"
version = "0.1.0"
edition = "2021"
publish = false

[dependencies]
substreams = "0.5"
substreams-ethereum = "0.9"
substreams-database-change = "1"
substreams-entity-change = "1"
prost = "0.11"
