[package]
name = "kakoune-scrollback"
version = "0.1.0"
edition = "2021"
publish = false

[dependencies]
anyhow = "=1.0.104"
tempfile = "=3.27.0"
vt100 = "=0.16.2"
