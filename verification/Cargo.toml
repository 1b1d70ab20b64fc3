[package]
name = "dedich32"
version = "0.1.0"
edition = "2021"
publish = false

[dependencies]
ch32-hal = "*"
critical-section = "*"
embassy-executor = "*"
embassy-futures = "*"
embassy-sync = "*"
embassy-time = "*"
embassy-usb = "*"
static_cell = "*"
