[package]
name = "social_game"
version = "0.1.0"
edition = "2021"
publish = false

[dependencies]
num = { version = "=0.4.3", default-features = false }
anchor-lang = { version = "=0.30.1", features = ["init-if-needed"] }
anchor-spl = { version = "=0.30.1", default-features = false, features = ["token", "token_2022", "associated_token"] }
solana-program = "=1.18.26"
spl-token-2022 = { version = "=3.0.5", features = ["no-entrypoint"] }
spl-token-metadata-interface = "=0.3.5"
