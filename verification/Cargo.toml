[package]
name = "soban"
version = "0.1.0"
edition = "2021"
publish = false

[dependencies]
dotenvy = "0.15"
eyre = "0.6"
futures = "0.3"
irc = { version = "0.15", default-features = false, features = ["ctcp", "tls-rust"] }
linkme = "0.3"
matrix-sdk = { version = "0.6", default-features = false, features = ["rustls-tls"] }
proc-macro2 = "1"
quote = "1"
reqwest = { version = "0.11", default-features = false, features = ["rustls-tls"] }
rosu-pp = "0.10"
rosu-v2 = "0.8"
syn = { version = "2", features = ["full", "extra-traits"] }
time = "0.3"
tokio = { version = "1", features = ["macros", "rt-multi-thread"] }
tracing = "0.1"
tracing-subscriber = "0.3"
