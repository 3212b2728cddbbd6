[package]
name = "chitin"
version = "0.1.0"
edition = "2021"
publish = false

[dependencies]
priq = "=0.1.6"
rand = "=0.10.3"
peg = "=0.8.6"
native-dialog = "=0.9.7"
