[package]
name = "gt-tool"
version = "0.1.0"
edition = "2021"
publish = false

[dependencies]
toml = "0.8"
itertools = "0.13"
serde = { version = "1", features = ["derive"] }
reqwest = { version = "0.12", default-features = false, features = ["json", "multipart", "rustls-tls"] }
tokio = { version = "1", features = ["macros", "rt-multi-thread"] }
clap = { version = "4", features = ["derive", "env"] }
