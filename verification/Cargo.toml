[package]
name = "tablex"
version = "0.1.0"
edition = "2021"
publish = false

[dependencies]
regex = "1"
prettytable-rs = "0.10"
rayon = "1"
serde = { version = "1", features = ["derive"] }
toml = "0.8"
structopt = "0.3"

[dev-dependencies]
csv = "1"
