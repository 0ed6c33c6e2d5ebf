[package]
name = "elio_query"
version = "0.1.0"
edition = "2021"
publish = false

[dependencies]
bitvec = "=1.1.1"
serde = { version = "=1.0.229", features = ["derive"] }
pretty-xmlish = "=0.1.13"
thiserror = "=2.0.21"
hashbrown = "=0.17.1"
