[package]
name = "dcb_tim"
version = "0.1.0"
edition = "2021"
publish = false

[dependencies]
byteorder = "=1.5.0"
int-conv = "=0.1.4"
thiserror = "=1.0.69"
clap = "2"
