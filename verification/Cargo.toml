[package]
name = "lv2_ui_ports"
version = "0.1.0"
edition = "2021"
publish = false

[dependencies]
lv2-atom = "*"
lv2-core = "*"
lv2-sys = "*"
urid = "*"
