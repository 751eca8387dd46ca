[package]
name = "state_track"
version = "0.1.0"
edition = "2021"
publish = false

[dependencies]
clap = "=4.6.7"
