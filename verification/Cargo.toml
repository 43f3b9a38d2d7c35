[package]
name = "ili9341_buffered"
version = "0.1.0"
edition = "2021"
publish = false

[dependencies]
embedded-hal = "0.2"
embedded-graphics = "0.5"
