[package]
name = "blockchain"
version = "0.1.0"
edition = "2021"
publish = false

[dependencies]
actix-web = { version = "4", default-features = false, features = ["macros"] }
chrono = "0.4"
ed25519-dalek = "2"
rand = "0.9"
reqwest = { version = "0.12", default-features = false }
sha2 = "0.10"
tokio = { version = "1", features = ["macros", "rt-multi-thread", "time"] }
