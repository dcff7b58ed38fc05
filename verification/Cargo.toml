[package]
name = "frawk"
version = "0.1.0"
edition = "2021"
publish = false

[dependencies]
crossbeam = "=0.8.5"
crossbeam-channel = "=0.5.17"
hashbrown = "=0.17.1"
libc = "=0.2.191"
llvm-sys = { version = "=231.0.1", features = ["no-llvm-linking"] }
petgraph = "=0.8.3"
regex = "=1.13.1"
unicode-xid = "=0.2.6"
