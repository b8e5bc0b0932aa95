[package]
name = "automergeable"
version = "0.1.0"
edition = "2021"
publish = false

[dependencies]
automerge = "=0.1.0"
proc-macro2 = "1"
quote = "1"
serde_json = "1"
smol_str = "0.1"
syn = { version = "1", features = ["full"] }
thiserror = "1"
unicode-segmentation = "1"
