[package]
name = "traffic_light"
version = "0.1.0"
edition = "2021"
publish = false

[dependencies]
heapless = "0.8"
cortex-m = "0.7"
stm32f4 = { version = "0.15", features = ["stm32f446", "rt"] }
