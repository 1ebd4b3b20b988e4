[package]
name = "anim_core"
version = "0.1.0"
edition = "2021"
publish = false

[dependencies]
sha1_smol = "1"
