[package]
name = "xgr_pbxproj"
version = "0.1.0"
edition = "2021"
publish = false

[dependencies]
md-5 = "0.10"
serde_json = "1"
indexmap = "2"
thiserror = "1"
