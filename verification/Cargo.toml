[package]
name = "cobuild_otx"
version = "0.1.0"
edition = "2021"
publish = false

[dependencies]
blake2b-ref = "*"
ckb-hash = { version = "*", default-features = false, features = ["ckb-contract"] }
k256 = { version = "*", default-features = false, features = ["ecdsa", "alloc"] }
ckb-std = { version = "*", default-features = false, features = ["ckb-types"] }

[dev-dependencies]
molecule = "*"
