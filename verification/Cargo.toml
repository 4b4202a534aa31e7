[package]
name = "vanity_wallet"
version = "0.1.0"
edition = "2021"
publish = false

[dependencies]
ethers-signers = "*"
ethers-core = "*"
rand = "0.8"
num_cpus = "*"
ctrlc = "*"
structopt = "*"
