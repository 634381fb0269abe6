[package]
name = "harmony"
version = "0.1.0"
edition = "2021"
publish = false

[dependencies]
goblin = "=0.10.7"
heapless = "=0.9.3"
bitvec = "=1.1.1"
tar-no-std = "=0.5.0"
