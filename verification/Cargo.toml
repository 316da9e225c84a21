[package]
name = "ferrino"
version = "0.1.0"
edition = "2021"
publish = false

[dependencies]
clap = { version = "=4.6.7", features = ["derive"] }
syn = { version = "=1.0.109", features = ["full"] }
quote = "=1.0.47"
proc-macro2 = "=1.0.107"
darling = "=0.14.4"
embedded-hal = "=1.0.0"
embedded-hal-async = "=1.0.0"
embedded-nal-async = "=0.9.0"
embassy-executor = "=0.10.0"
embassy-nrf = { version = "=0.3.1", features = ["nrf52833", "gpiote"] }
embassy-rp = { version = "=0.10.0", features = ["rp2040"] }
embassy-net = { version = "=0.9.1", features = ["tcp", "dhcpv4", "proto-ipv4", "medium-ethernet"] }
embassy-usb-logger = "=0.6.0"
cyw43 = "=0.7.0"
static_cell = "=2.1.1"
cortex-m-rt = "=0.7.7"
log = "=0.4.35"
