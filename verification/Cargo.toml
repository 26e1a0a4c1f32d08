[package]
name = "smart_presenter"
version = "0.1.0"
edition = "2021"
publish = false

[dependencies]
cortex-m = "0.7"
cortex-m-rt = "0.7"
embedded-nrf24l01 = "=0.2.0"
log = "0.4"
panic-semihosting = "0.6"
stm32l4 = { version = "=0.14.0", features = ["rt", "stm32l4x6"] }
stm32l4xx-hal = { version = "=0.7.1", features = ["rt", "stm32l476", "otg_fs"] }
usb-device = "0.2"
usbd-hid = "0.6"
usbd-serial = "0.1"

[dev-dependencies]
embedded-hal = "0.2"
