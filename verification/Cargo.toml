[package]
name = "ps2_keyboard"
version = "0.1.0"
edition = "2021"
publish = false

[dependencies]
pc-keyboard = "=0.7.0"
critical-section = "=1.2.0"
