[package]
name = "chamber"
version = "0.1.0"
edition = "2021"
publish = false

[dependencies]
crossterm = "0.25"
figlet-rs = "0.1"
tui = "0.19"
unicode-width = "0.1"
