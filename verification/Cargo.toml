[package]
name = "core_staking"
version = "0.1.0"
edition = "2021"
publish = false

[dependencies]
anchor-lang = { version = "=0.31.2", features = ["init-if-needed"] }
anchor-spl = { version = "=0.31.2", default-features = false, features = ["associated_token", "token", "token_2022"] }
mpl-core = { version = "=0.12.1", default-features = false, features = ["anchor"] }
