[package]
name = "crossref_harvest"
version = "0.1.0"
edition = "2021"
publish = false

[dependencies]
sha1 = "*"
time = { version = "*", features = ["formatting", "parsing"] }
scholarly_identifiers = "*"
serde_json = "*"
rusqlite = { version = "*", features = ["bundled"] }
reqwest = { version = "*", default-features = false, features = ["blocking", "json", "rustls-tls"] }
