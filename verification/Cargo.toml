[package]
name = "kernel_core"
version = "0.1.0"
edition = "2021"
publish = false

[dependencies]
chrono = { version = "*", default-features = false }
unifont = "*"
fdt = "*"
hadris-fat = "*"
virtio-drivers = "*"
aarch64-paging = "*"
aarch64-cpu = "*"
arm-gic = "*"
