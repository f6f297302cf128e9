[package]
name = "avatarmud_client"
version = "0.1.0"
edition = "2021"
publish = false

[dependencies]
telnet = "*"
nonblock = "*"
termios = "*"
