[package]
name = "holochain_nixpkgs"
version = "0.1.0"
edition = "2021"
publish = false

[dependencies]
anyhow = "1"
regex = "1"
json5 = "0.4"
serde = { version = "1", features = ["derive"] }
serde_json = "1"
serde_yaml = "0.8"
semver = { version = "1", features = ["serde"] }
url = "2"
toml_edit = { version = "0.14", features = ["easy", "serde"] }
cargo-lock = "8"
handlebars = "4"
once_cell = "1"
itertools = "0.10"
linked-hash-map = "0.5"
linked_hash_set = "0.1"
indoc = "1"
tempfile = "3"
smart-default = "0.6"
structopt = "0.3"
clap = { version = "3", features = ["derive"] }
log = "0.4"
