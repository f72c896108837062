[package]
name = "token_vesting"
version = "0.1.0"
edition = "2021"
publish = false

[dependencies]
cosmwasm-std = "*"
cw-storage-plus = "*"
cw20 = "*"
schemars = "*"
serde = { version = "*", features = ["derive"] }
