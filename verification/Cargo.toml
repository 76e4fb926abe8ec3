[package]
name = "si1145"
version = "0.1.0"
edition = "2021"
publish = false

[dependencies]
defmt = "=1.2.0"
defmt-rtt = "=1.3.1"
embassy-executor = "=0.9.1"
embassy-nrf = { version = "=0.11.0", features = ["nrf52840", "time-driver-rtc1"] }
embassy-time = "=0.5.1"
embedded-hal = "=1.0.0"
embedded-hal-bus = "=0.3.0"
libm = "=0.2.16"
panic-probe = { version = "=1.0.0", features = ["print-defmt"] }
sgp30 = "=1.1.0"
