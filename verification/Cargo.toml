[package]
name = "ptz_controller"
version = "0.1.0"
edition = "2021"
publish = false

[dependencies]
crc = "=3.4.0"
heapless = "=0.9.3"
oorandom = "=11.1.5"
embedded-graphics = "=0.8.2"
sky-ili9341 = { version = "=0.1.1", features = ["async"] }
embedded-io-async = "=0.7.0"
embedded-hal-bus = { version = "=0.3.0", features = ["async"] }
embassy-time = "=0.5.1"
embassy-sync = "=0.8.0"
embassy-futures = "=0.1.2"
embassy-executor = { version = "=0.10.0", features = ["platform-spin", "executor-thread"] }
embassy-stm32 = { version = "=0.6.0", features = ["stm32f411ce", "time-driver-any", "exti", "memory-x", "unstable-pac"] }
static_cell = "=2.1.1"
cortex-m = "=0.7.10"
defmt = "=1.2.0"
defmt-rtt = "=1.3.1"
panic-probe = "=1.0.0"
