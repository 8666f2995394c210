[package]
name = "etcd_mirror"
version = "0.1.0"
edition = "2021"
publish = false

[dependencies]
hyper = "0.10"
libc = "0.2"
openssl = "0.10"
serde = "1.0"
serde_derive = "1.0"
serde_json = "1.0"
serde_yaml = "0.9"
