[package]
name = "slam_rover"
version = "0.1.0"
edition = "2021"
publish = false

[dependencies]
base64 = "0.13"
crossbeam-channel = "0.5"
gdnative = "0.9"
nalgebra = "0.29"
ndarray = "0.15"
prost = "0.8"
scarlet = "1.1"
zmq = "0.9"
