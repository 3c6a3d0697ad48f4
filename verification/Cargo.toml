[package]
name = "opal_downloader"
version = "0.1.0"
edition = "2021"
publish = false

[dependencies]
chrono = "0.4"
chrono-tz = "*"
regex = "1"
exitcode = "1"
clap = { version = "4", features = ["derive"] }
