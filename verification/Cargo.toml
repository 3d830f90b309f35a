[package]
name = "reovim"
version = "0.1.0"
edition = "2021"
publish = false

[dependencies]
vector-map = "*"
xi-unicode = "0.3.0"
clap = { version = "4", features = ["derive", "env"] }
tracing = "0.1.44"
tracing-subscriber = { version = "0.3.23", features = ["env-filter", "fmt"] }
