[package]
name = "frostbyte"
version = "0.1.0"
edition = "2021"
publish = false

[dependencies]
hex = "=0.4.3"
openssl = "=0.10.81"
pwhash = "=1.0.0"
rand = "=0.8.8"
schnorrkel = "=0.11.5"
