[package]
name = "dqn_cartpole"
version = "0.1.0"
edition = "2021"
publish = false

[dependencies]
rand = "=0.8.8"
clap = { version = "=4.6.7", features = ["derive"] }
crossterm = "=0.28.1"
ratatui = "=0.29.0"
ordered-float = "=4.6.0"
gym-rs = "=0.3.0"
par-iter = "=2.0.0"
