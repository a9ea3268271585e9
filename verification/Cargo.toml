[package]
name = "snake_game"
version = "0.1.0"
edition = "2021"
publish = false

[dependencies]
heapless = "0.8"
hash32 = "0.3"
cortex-m = "0.7"
cortex-m-rt = "0.7"
microbit-v2 = "*"
rtt-target = "*"
panic-rtt-target = "*"
