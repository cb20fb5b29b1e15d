[package]
name = "kora_synth"
version = "0.1.0"
edition = "2021"
publish = false

[dependencies]
rand = "0.8"
hound = "3"
crossbeam-channel = "0.5"
cpal = "0.15"
midir = "0.10"
