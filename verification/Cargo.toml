[package]
name = "osm_local_tile_dl"
version = "0.1.0"
edition = "2021"
publish = false

[dependencies]
anyhow = "1"
clap = { version = "4", features = ["derive"] }
futures = "0.3"
indicatif = "0.17"
reqwest = { version = "0.12", default-features = false }
tokio = { version = "1", features = ["fs", "io-util", "macros", "rt-multi-thread"] }
