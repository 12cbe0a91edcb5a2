[package]
name = "fungi_transport"
version = "0.1.0"
edition = "2021"
publish = false

[dependencies]
tor-llcrypto = "*"
tor-rtcompat = { version = "*", default-features = false, features = ["tokio", "rustls"] }
capnp = "0.21"
capnp-rpc = "0.21"
tokio = { version = "1", features = ["full"] }
tokio-util = { version = "0.7", features = ["compat"] }
rustls = { version = "0.23", default-features = false, features = ["ring", "std"] }
