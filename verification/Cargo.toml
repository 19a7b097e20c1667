[package]
name = "solana-erc3643"
version = "0.1.0"
edition = "2021"
publish = false

[dependencies]
num-derive = "=0.4.2"
num-traits = "=0.2.19"
solana-program = "=1.18.26"
thiserror = "=1.0.69"

[dev-dependencies]
borsh = "=0.10.4"
