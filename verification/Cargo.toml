[package]
name = "can_daq"
version = "0.1.0"
edition = "2021"
publish = false

[dependencies]
can_decode = "=0.7.2"
can-dbc = "=9.1.0"
chrono = "=0.4.45"
rand = "=0.10.3"
slcan = "=0.1.3"
serial = "*"
