[package]
name = "chatbox_status"
version = "0.1.0"
edition = "2021"
publish = false

[dependencies]
bytesize = "1"
chrono = "0.4"
clap = { version = "4", features = ["derive"] }
ctrlc = "3"
nvml-wrapper = "0.10"
once_cell = "1"
rosc = "0.10"
sysinfo = "0.30"
