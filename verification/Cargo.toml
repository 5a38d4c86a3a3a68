[package]
name = "script_systems"
version = "0.1.0"
edition = "2021"
publish = false

[dependencies]
crossbeam = "0.7"
gfx = "0.18"
gfx_device_gl = "0.16"
gfx_window_glutin = "0.31"
glutin = "0.21"
nalgebra = "0.18"
rlua = "0.17"
shred = "0.9"
shred-derive = "0.6"
specs = "0.15"
specs-derive = "0.4"
