[package]
name = "gmsv_workshop"
version = "0.1.0"
edition = "2021"
publish = false

[dependencies]
gmod = "=17.0.1"
gmod-lzma = "=1.0.1"
indexmap = "=2.14.2"
regex = "=1.13.1"
reqwest = { version = "=0.12.28", default-features = false, features = ["blocking", "rustls-tls"] }
sha2 = "=0.10.9"
steamworks = { version = "=0.13.1", features = ["raw-bindings"] }
zip = { version = "=9.1.0", default-features = false, features = ["deflate"] }
