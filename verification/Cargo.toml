[package]
name = "drone_swarm"
version = "0.1.0"
edition = "2021"
publish = false

[dependencies]
mavlink = { version = "=0.17.1", default-features = false, features = ["std", "tcp", "udp", "common", "signing"] }
serde = { version = "1", features = ["derive"] }
serde_json = "1"
sha2 = "=0.11.1"
tokio = { version = "1", features = ["rt-multi-thread", "macros", "sync", "time"] }
