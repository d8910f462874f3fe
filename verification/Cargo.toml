[package]
name = "cargo_list"
version = "0.1.0"
edition = "2021"
publish = false

[dependencies]
anyhow = "*"
clap = { version = "*", features = ["derive"] }
clap-cargo = "*"
dirs = "*"
indexmap = "*"
pager = "*"
rayon = "*"
regex = "*"
reqwest = { version = "*", default-features = false, features = ["blocking", "json", "rustls-tls"] }
semver = "*"
serde = { version = "*", features = ["derive"] }
serde_json = "*"
spinners = "*"
sprint = "*"
veg = { version = "*", features = ["colored"] }
