[package]
name = "wav_files_validate"
version = "0.1.0"
edition = "2021"
publish = false

[dependencies]
clap = { version = "4", features = ["derive"] }
hound = "3.5"
walkdir = "2"
