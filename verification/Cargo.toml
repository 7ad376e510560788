[package]
name = "imxrt_usbd"
version = "0.1.0"
edition = "2021"
publish = false

[dependencies]
cortex-m = "0.7"
imxrt-ral = { version = "0.6", features = ["imxrt1062"] }
usb-device = "0.3"
