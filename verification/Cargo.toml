[package]
name = "note_runner"
version = "0.1.0"
edition = "2021"
publish = false

[dependencies]
markdown = "1.0.0-alpha.21"
tempdir = "0.3"
anyhow = "1"
