[package]
name = "release_tracker"
version = "0.1.0"
edition = "2021"
publish = false

[dependencies]
lenient_semver = "*"
semver = "*"
parse_link_header = "*"
sha2 = "*"
base16ct = { version = "*", features = ["alloc"] }
serde = { version = "*", features = ["derive"] }
serde_json = "*"
