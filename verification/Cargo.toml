[package]
name = "sensor_display"
version = "0.1.0"
edition = "2021"
publish = false

[dependencies]
arrayvec = "=0.5.2"
embedded-graphics = "=0.6.2"
ssd1306 = "=0.4.1"
nrf52840-hal = "=0.12.2"
cortex-m-rt = "=0.6.15"
lsm9ds1 = "=0.1.0"
panic-halt = "0.2"
