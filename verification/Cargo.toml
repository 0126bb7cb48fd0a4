[package]
name = "hack_and_hike"
version = "0.1.0"
edition = "2021"
publish = false

[dependencies]
allocator-api2 = "=0.4.0"
arrayvec = "=0.7.8"
critical-section = "=1.2.0"
display-interface-spi = "=0.5.0"
embassy-executor = "=0.10.0"
embassy-sync = "=0.8.0"
embassy-time = "=0.5.1"
embedded-graphics = "=0.8.2"
embedded-hal = "=1.0.0"
embedded-hal-async = "=1.0.0"
embedded-hal-bus = "=0.3.0"
esp-alloc = "=0.11.0"
esp-backtrace = "=0.20.0"
esp-bootloader-esp-idf = "=0.6.0"
esp-hal = "=1.1.2"
esp-println = "=0.18.0"
esp-radio = "=0.18.0"
esp-rtos = "=0.3.0"
libm = "=0.2.16"
log = "0.4"
mipidsi = "=0.10.0"
static_cell = "=2.1.1"
