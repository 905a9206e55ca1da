[package]
name = "rolling_stats"
version = "0.1.0"
edition = "2021"
publish = false

[dependencies]
byteorder = { version = "1", default-features = false }
heapless = "0.8"
libc-print = "0.1"
rand = "0.8"
rand_distr = "0.4"
