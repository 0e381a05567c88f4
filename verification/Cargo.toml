[package]
name = "hnloader"
version = "0.1.0"
edition = "2021"
publish = false

[dependencies]
async-graphql = { version = "=4.0.16", features = ["dataloader"] }
async-graphql-warp = "=4.0.16"
async-trait = "=0.1.92"
futures = "=0.3.34"
http = "=0.2.12"
reqwest = { version = "=0.11.27", default-features = false, features = ["json"] }
serde = { version = "=1.0.229", features = ["derive"] }
tokio = { version = "=1.53.2", features = ["macros", "rt-multi-thread"] }
warp = "=0.3.7"
