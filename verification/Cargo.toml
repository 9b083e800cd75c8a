[package]
name = "delay_reverb_fx"
version = "0.1.0"
edition = "2021"
publish = false
