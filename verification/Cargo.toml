[package]
name = "serial_ws2812"
version = "0.1.0"
edition = "2021"
publish = false

[dependencies]
bytemuck = "=1.25.2"
fixed = "=1.31.0"
fixed-macro = "=1.2.0"
pio = "=0.4.0"
pio-proc = "=0.4.0"
embassy-executor = { version = "=0.9.1", features = ["arch-std", "executor-thread"] }
embassy-sync = "=0.8.0"
embassy-time = "=0.5.1"
embassy-usb = "=0.6.0"
futures = { version = "=0.3.34", default-features = false }
static_cell = "=2.1.1"
cortex-m-rt = "=0.7.7"
defmt = "=1.2.0"
defmt-rtt = "=1.3.1"
panic-probe = "=1.0.0"
serialport = { version = "=4.10.1", default-features = false }
thiserror = "=1.0.69"
tracing = "=0.1.44"
tokio = { version = "=1.54.1", features = ["io-util"] }
tokio-serial = { version = "=5.5.0", default-features = false }
