[package]
name = "splendor"
version = "0.1.0"
edition = "2021"
publish = false

[dependencies]
rand = "0.8"
anyhow = "*"
clap = { version = "*", features = ["derive"] }
data-encoding = "*"
futures-lite = "*"
iroh = "*"
iroh-gossip = "*"
serde = { version = "*", features = ["derive"] }
serde_json = "*"
tokio = { version = "*", features = ["rt-multi-thread", "macros", "sync"] }
uuid = { version = "*", features = ["v4", "serde"] }
