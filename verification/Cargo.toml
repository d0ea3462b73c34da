[package]
name = "openapi_codegen"
version = "0.1.0"
edition = "2021"
publish = false

[dependencies]
aide = "0.14"
anyhow = "1"
bollard = "*"
camino = "1"
clap = { version = "4", features = ["derive"] }
fs-err = "*"
heck = "0.5"
indexmap = "2"
itertools = "*"
minijinja = { version = "2", features = ["loader"] }
rand = "0.9"
ron = "*"
schemars = "0.8"
serde = { version = "1", features = ["derive"] }
serde_json = "1"
sha2 = "0.10"
tempfile = "3"
thiserror = "*"
toml = "*"
tracing = "0.1"
tracing-subscriber = "0.3"
