[package]
name = "linux_syscall_api"
version = "0.1.0"
edition = "2021"
publish = false

[dependencies]
axerrno = "0.1"
axfs = "0.3.0-preview.3"
axhal = "0.3.0-preview.3"
axlog = "0.3.0-preview.3"
axsync = "0.3.0-preview.3"
