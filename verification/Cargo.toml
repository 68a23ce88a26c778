[package]
name = "get_paper"
version = "0.1.0"
edition = "2021"
publish = false

[dependencies]
dirs = "5"
fltk = "1.4"
hotwatch = "0.5"
open = "5"
rand = "0.8"
reqwest = { version = "0.11", default-features = false, features = ["rustls-tls"] }
serde_json = "1"
tokio = { version = "1", features = ["rt-multi-thread", "macros", "process"] }
walkdir = "2"
