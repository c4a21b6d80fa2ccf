[package]
name = "kzero"
version = "0.1.0"
edition = "2021"
publish = false

[dependencies]
board-game = "=0.8.2"
clap = { version = "3.2", features = ["derive"] }
crossbeam = "0.8"
crossterm = "0.25"
decorum = "=0.3.1"
flume = "0.10"
internal-iterator = "=0.2.3"
itertools = "0.10"
kn-cuda-sys = "0.7"
kn-graph = "0.7"
kn-runtime = "0.7"
rand = "0.8"
serde = { version = "1", features = ["derive"] }
serde_json = "1"
tui = "0.19"
