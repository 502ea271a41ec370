[package]
name = "git_commit_counter_lib"
version = "0.1.0"
edition = "2021"

[dependencies]
clap = { version = "4", features = ["derive"] }
dirs = "5"
regex = "1"
thiserror = "1"
