[package]
name = "micro_shooter"
version = "0.1.0"
edition = "2021"
publish = false

[dependencies]
heapless = "0.8"
microbit-v2 = "0.13"
embedded-hal = "0.2"
cortex-m-rt = "0.7"
panic-halt = "0.2"
