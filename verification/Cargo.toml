[package]
name = "negicon_hub"
version = "0.1.0"
edition = "2021"
publish = false

[dependencies]
ux = "=0.1.6"
pio = "=0.2.1"
nb = "=1.1.0"
fugit = "=0.3.9"
frunk = { version = "=0.4.4", default-features = false }
embedded-hal = "=0.2.7"
cortex-m = "=0.7.10"
cortex-m-rt = "=0.7.7"
rp2040-hal = { version = "=0.9.2", features = ["rt", "critical-section-impl"] }
rp2040-boot2 = "=0.3.0"
usb-device = "=0.2.9"
usbd-human-interface-device = "=0.4.5"
embedded-alloc = "=0.5.1"
panic-usb-boot = "=0.3.0"
