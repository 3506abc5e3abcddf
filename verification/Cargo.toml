[package]
name = "circle_checker"
version = "0.1.0"
edition = "2021"
publish = false

[dependencies]
regex = "1"
bincode = "1"
chrono = "*"
config = { version = "*", default-features = false, features = ["toml"] }
egg-mode = { version = "*", default-features = false, features = ["rustls"] }
env_logger = "*"
log = "*"
reqwest = { version = "*", default-features = false, features = ["blocking", "rustls-tls"] }
scraper = "*"
serde = { version = "1", features = ["derive"] }
serde_derive = "1"
tokio = { version = "1", features = ["macros", "rt-multi-thread"] }
webbrowser = "*"
