[package]
name = "sevenz"
version = "0.1.0"
edition = "2021"
publish = false

[dependencies]
bitvec = "1"
crc = "3"
widestring = "1"
