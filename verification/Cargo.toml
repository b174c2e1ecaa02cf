[package]
name = "nodemgr"
version = "0.1.0"
edition = "2021"
publish = false

[dependencies]
convert_case = "*"
serde = { version = "1", features = ["derive"] }
toml = "*"
clap = { version = "4", features = ["cargo"] }
reqwest = { version = "*", default-features = false, features = ["blocking", "rustls-tls"] }

[dev-dependencies]
strum_macros = "*"
