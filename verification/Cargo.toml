[package]
name = "pipewireao_rtc"
version = "0.1.0"
edition = "2021"
publish = false

[dependencies]
pipewire = "*"
