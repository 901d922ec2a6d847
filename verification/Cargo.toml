[package]
name = "mcasm"
version = "0.1.0"
edition = "2021"
publish = false

[dependencies]
anyhow = "=1.0.104"
clap = { version = "=4.6.7", features = ["derive"] }
mc_schem = "=1.1.2"
paris = { version = "=1.5.15", features = ["macros"] }
