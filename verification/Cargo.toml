[package]
name = "noveltui"
version = "0.1.0"
edition = "2021"
publish = false

[dependencies]
regex = "=1.13.1"
ratatui = "=0.30.2"
crossterm = "=0.29.0"
clap = { version = "=4.6.7", features = ["derive"] }
color-eyre = "=0.6.5"
chardetng = "0.1.17"
encoding_rs = "0.8"
textwrap = "=0.16.4"
