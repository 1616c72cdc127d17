[package]
name = "marketplace_indexer"
version = "0.1.0"
edition = "2021"
publish = false

[dependencies]
bs58 = "0.4"
reqwest = { version = "0.11", default-features = false, features = ["json"] }
serde = { version = "1", features = ["derive"] }

[dev-dependencies]
borsh = "0.9"
