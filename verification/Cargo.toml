[package]
name = "treat_dispenser"
version = "0.1.0"
edition = "2021"
publish = false

[dependencies]
embassy-executor = "=0.5.1"
embassy-net = { version = "=0.4.0", features = ["tcp", "udp", "dhcpv4", "medium-ethernet", "dns"] }
embassy-sync = "=0.6.2"
embassy-time = { version = "=0.3.2", features = ["tick-hz-1_000_000"] }
embedded-hal = "=1.0.0"
esp-alloc = "0.4"
esp-backtrace = { version = "=0.13.0", features = ["esp32c6", "panic-handler", "exception-handler", "println"] }
esp-hal = { version = "=0.19.0", features = ["esp32c6", "async"] }
esp-hal-embassy = { version = "=0.2.0", features = ["esp32c6"] }
esp-println = { version = "=0.10.0", features = ["esp32c6", "log"] }
esp-wifi = { version = "=0.7.1", features = ["esp32c6", "wifi", "embassy-net", "async"] }
rust-mqtt = { version = "=0.3.1", default-features = false }
static_cell = "=2.1.1"
