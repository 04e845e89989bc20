[package]
name = "rpi_drm"
version = "0.1.0"
edition = "2021"
publish = false

[dependencies]
num = "0.4"
flate2 = "1"
smallvec = "1"
png = "*"
glam = "*"
drm = "*"
drm-ffi = "*"
drm-sys = "*"
drm-fourcc = "*"
libc = "0.2"
nix = { version = "*", features = ["ioctl", "mman", "fs"] }
tokio = { version = "1", features = ["rt-multi-thread", "net", "time"] }
num-traits = "0.2"
