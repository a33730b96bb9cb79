[package]
name = "openbook"
version = "0.1.0"
edition = "2021"
publish = false

[dependencies]
rand = "0.8"
anyhow = "1"
log = "0.4"
openbook_dex = { version = "0.5", features = ["no-entrypoint"] }
solana-program = "1.18.26"
solana-sdk = "1.18.26"
spl-associated-token-account = { version = "2.3.0", features = ["no-entrypoint"] }
