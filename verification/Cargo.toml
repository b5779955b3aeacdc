[package]
name = "radio_link"
version = "0.1.0"
edition = "2021"
publish = false

[dependencies]
clap = { version = "=4.6.7", features = ["derive"] }
ctrlc = "=3.5.2"
nrf24l01 = "=0.2.0"
packet = "=0.1.4"
tun = "=0.6.1"
