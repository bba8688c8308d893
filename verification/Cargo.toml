[package]
name = "nft_manager"
version = "0.1.0"
edition = "2021"
publish = false

[dependencies]
anchor-lang = { version = "0.30.1", features = ["interface-instructions"] }
anchor-spl = "0.30.1"
mpl-core = "=0.7.2"
spl-tlv-account-resolution = "0.6"
spl-transfer-hook-interface = "0.6"
