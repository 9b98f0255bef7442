[package]
name = "sesh"
version = "0.1.0"
edition = "2021"
publish = false

[dependencies]
anyhow = "1"
chrono = { version = "0.4", features = ["serde"] }
clap = { version = "4", features = ["derive"] }
clap_complete = "4"
console = "*"
dialoguer = { version = "*", features = ["fuzzy-select"] }
reqwest = { version = "*", default-features = false, features = ["json"] }
serde = { version = "1", features = ["derive"] }
serde_json = "1"
thiserror = "*"
tokio = { version = "1", features = ["macros", "rt-multi-thread"] }
toml = "*"
