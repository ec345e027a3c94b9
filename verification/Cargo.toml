[package]
name = "one_direction_push"
version = "0.1.0"
edition = "2021"
publish = false

[dev-dependencies]
unsigned-varint = "*"
