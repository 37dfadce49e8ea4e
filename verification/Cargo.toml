[package]
name = "omnect_image"
version = "0.1.0"
edition = "2021"
publish = false

[dependencies]
xz2 = "*"
bzip2 = "*"
flate2 = "*"
num_cpus = "*"
filemagic = "*"
