[package]
name = "bot_go_brr"
version = "0.1.0"
edition = "2021"
publish = false

[dependencies]
include_tt = "=1.1.1"
safe-vex = "=3.2.1"
vex-rt = "=0.15.1"
