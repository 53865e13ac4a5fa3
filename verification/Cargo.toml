[package]
name = "wifi_hello"
version = "0.1.0"
edition = "2021"
publish = false

[dependencies]
chrono = { version = "=0.4.45", default-features = false, features = ["serde"] }
heapless = "=0.8.0"
serde = { version = "=1.0.229", default-features = false, features = ["derive"] }
serde-json-core = "=0.6.0"
embedded-graphics = "=0.8.2"
tinybmp = "=0.6.0"
epd-waveshare = "=0.6.0"
embedded-hal-bus = "=0.3.0"
embassy-time = "=0.5.1"
embassy-net = { version = "=0.9.1", features = ["tcp", "dns", "dhcpv4", "proto-ipv4", "medium-ethernet"] }
reqwless = "=0.13.0"
defmt = "=1.2.0"
static_cell = "=2.1.1"
dotenvy_macro = "*"
