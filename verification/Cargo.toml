[package]
name = "nets"
version = "0.1.0"
edition = "2021"
publish = false

[dependencies]
crossterm = "=0.25.0"
itertools = "=0.10.5"
netstat2 = "=0.11.2"
procfs = "=0.14.2"
regex = "=1.13.1"
tokio = { version = "=1.54.1", features = ["macros", "rt-multi-thread", "sync"] }
tui = "=0.19.0"
unicode-width = "=0.1.14"
