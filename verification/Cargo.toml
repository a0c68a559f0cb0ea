[package]
name = "sstatic"
version = "0.1.0"
edition = "2021"
publish = false

[dependencies]
ring = "=0.17.14"
data-encoding = "=2.11.1"
minifier = "=0.4.0"
argh = "=0.1.19"
tokio = { version = "=1.53.2", features = ["macros", "rt-multi-thread"] }
warp = { version = "=0.4.3", features = ["server"] }
