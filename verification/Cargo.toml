[package]
name = "rust_visualizer"
version = "0.1.0"
edition = "2021"
publish = false

[dependencies]
petgraph = "0.6"
proc-macro2 = "1"
syn = { version = "2", features = ["full", "visit", "extra-traits"] }
thiserror = "1"
clap = { version = "4", features = ["derive"] }
colored = "2"
indicatif = "0.17"
serde_json = "1"
tokio = { version = "1", features = ["rt"] }
walkdir = "2"
