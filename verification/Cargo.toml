[package]
name = "gemm_common"
version = "0.1.0"
edition = "2021"
publish = false

[dependencies]
raw-cpuid = "*"
sysctl = "*"
lazy_static = "*"
