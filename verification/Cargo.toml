[package]
name = "log_terminal"
version = "0.1.0"
edition = "2021"
publish = false

[dependencies]
ansi-to-tui = "7"
crossterm = "0.28"
ratatui = "0.29"
textwrap = "0.16"
tracing = "0.1"
tracing-subscriber = "0.3"
