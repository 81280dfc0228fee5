[package]
name = "monhop-transport"
version = "0.1.0"
edition = "2021"
publish = false

[dependencies]
log = "0.4"
quinn = { version = "0.11", default-features = false, features = ["runtime-tokio", "rustls-ring"] }
rcgen = { version = "0.13", features = ["zeroize"] }
rustls = { version = "0.23", default-features = false, features = ["ring", "std"] }
sha2 = "0.10"
tokio = { version = "1", features = ["rt", "time", "sync", "macros"] }
zeroize = "1"
