[package]
name = "folder_summary"
version = "0.1.0"
edition = "2021"
publish = false

[dependencies]
async-trait = "*"
chrono = "*"
clap = { version = "4", features = ["derive"] }
env_logger = "*"
futures = "*"
globset = "*"
ignore = "*"
indicatif = "*"
log = "*"
proc-macro2 = { version = "1", features = ["span-locations"] }
quote = "1"
reqwest = { version = "*", default-features = false, features = ["json", "rustls-tls"] }
serde = { version = "1", features = ["derive"] }
serde_json = "1"
syn = { version = "1", features = ["full", "visit", "extra-traits"] }
tokio = { version = "1", features = ["macros", "rt-multi-thread"] }
toml = "*"
walkdir = "*"
