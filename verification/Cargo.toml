[package]
name = "srp_client"
version = "0.1.0"
edition = "2021"
publish = false

[dependencies]
num-bigint = "=0.4.8"
subtle = "=2.6.1"
digest = "=0.10.7"

[dev-dependencies]
sha2 = "=0.10.9"
sha1 = "0.10"
srp6 = "=1.0.0-beta.2"
