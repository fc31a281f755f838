[package]
name = "bayronik_core"
version = "0.1.0"
edition = "2021"

[dependencies]
rand = "=0.9.5"
rustfft = "=6.4.1"
num-complex = "=0.4.6"
ndarray = "=0.17.2"
ndarray-npy = "=0.10.0"
anyhow = "=1.0.104"
rand_distr = "=0.5.1"
