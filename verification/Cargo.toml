[package]
name = "tachometer"
version = "0.1.0"
edition = "2021"
publish = false

[dependencies]
heapless = "0.8"
embedded-hal = "0.2"
ht16k33 = "0.4"
adafruit-7segment = "0.1"
