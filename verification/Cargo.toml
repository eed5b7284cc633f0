[package]
name = "ledger_archive"
version = "0.1.0"
edition = "2021"
publish = false

[dependencies]
dirs = "2"
protobuf = "2"
reqwest = { version = "0.10", default-features = false, features = ["blocking", "rustls-tls"] }
retry = "1"
rusoto_core = { version = "0.42", default-features = false, features = ["rustls"] }
rusoto_s3 = { version = "0.42", default-features = false, features = ["rustls"] }
serde = { version = "1", features = ["derive"] }
serde_json = "1"
structopt = "0.3"
url = "2.1"
