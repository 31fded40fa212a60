[package]
name = "sol_usd_minter"
version = "0.1.0"
edition = "2021"
publish = false

[dependencies]
solana-pubkey = { version = "2", features = ["curve25519"] }
solana-sha256-hasher = "2"
solana-keypair = "2"
anyhow = "1"
dotenvy = "0.15"
tokio = { version = "1", features = ["macros", "rt-multi-thread", "time"] }
reqwest = { version = "0.12", default-features = false, features = ["json", "rustls-tls"] }
serde = { version = "1", features = ["derive"] }
tracing-subscriber = { version = "0.3", features = ["env-filter"] }
