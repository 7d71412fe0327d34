[package]
name = "bbc_micro_emu"
version = "0.1.0"
edition = "2021"
publish = false

[dependencies]
winit = "0.30"
softbuffer = "0.4"
cpal = "0.15"
gilrs = "0.11"
