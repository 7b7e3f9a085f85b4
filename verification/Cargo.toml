[package]
name = "bridge_relays"
version = "0.1.0"
edition = "2021"
publish = false

[dependencies]
backoff = "=0.2.1"
linked-hash-map = "=0.5.6"
sp-arithmetic = "*"
async-std = "=1.13.2"
futures = "=0.3.34"
async-trait = "=0.1.92"
log = "=0.4.35"
env_logger = "=0.8.4"
ansi_term = "=0.12.1"
time = "=0.2.27"
