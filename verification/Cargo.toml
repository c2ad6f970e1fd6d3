[package]
name = "rsky_pds"
version = "0.1.0"
edition = "2021"
publish = false

[dependencies]
sha2 = "=0.11.0"
libipld = "=0.12.0"
jwt-simple = { version = "=0.15.0", default-features = false, features = ["pure-rust"] }
secp256k1 = "=0.33.1"
rand = "*"
