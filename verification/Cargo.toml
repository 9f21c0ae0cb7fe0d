[package]
name = "p2p_swarm"
version = "0.1.0"
edition = "2021"
publish = false

[dependencies]
libp2p = { version = "=0.57.1", default-features = false, features = ["ed25519", "macros", "noise", "ping", "tcp", "tokio", "yamux"] }
tokio = { version = "=1.54.1", features = ["macros", "rt-multi-thread", "signal", "time"] }
futures = "=0.3.34"
log = "=0.4.34"
env_logger = "=0.11.11"
structopt = "=0.3.26"
