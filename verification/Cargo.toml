[package]
name = "irc_correlator"
version = "0.1.0"
edition = "2021"
publish = false

[dependencies]
clap = { version = "*", features = ["derive"] }
futures-util = "*"
itertools = "*"
log = "*"
ratatui = "*"
tokio = { version = "*", features = ["macros", "rt-multi-thread", "sync", "time"] }
tokio-postgres = "*"
tui-logger = "*"
