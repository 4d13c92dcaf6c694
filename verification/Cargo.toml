[package]
name = "ci_deploy_stats"
version = "0.1.0"
edition = "2021"
publish = false

[dependencies]
axum = "*"
futures = "*"
reqwest = { version = "*", default-features = false, features = ["json"] }
serde = { version = "*", features = ["derive"] }
serde_json = "*"
thiserror = "*"
tokio = { version = "*", features = ["macros", "rt-multi-thread", "net"] }
