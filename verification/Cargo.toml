[package]
name = "compass_2_0"
version = "0.1.0"
edition = "2021"
publish = false

[dependencies]
cortex-m = "=0.6.7"
cortex-m-rt = "=0.6.15"
lsm303agr = "=0.2.2"
m = "=0.1.1"
stm32f3-discovery = "=0.6.1"
