[package]
name = "renoise2mod-core"
version = "0.1.0"
edition = "2021"
publish = false

[dependencies]
clap = { version = "=4.6.7", features = ["derive"] }
regex = "=1.13.1"
roxmltree = "0.20"
symphonia = { version = "=0.5.5", features = ["all"] }
thiserror = "=2.0.21"
zip = "=2.6.1"
