[package]
name = "message_recorder"
version = "0.1.0"
edition = "2021"
publish = false

[dependencies]
bincode = "1.3"
clap = { version = "4", features = ["cargo"] }
env_logger = "0.11"
hdf5 = "0.8"
zenoh = "0.11"
