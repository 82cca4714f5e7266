[package]
name = "starred_music"
version = "0.1.0"
edition = "2021"
publish = false

[dependencies]
chrono = "0.4"
ansi_term = "0.12"
dirs = "*"
exitcode = "1"
