[package]
name = "shader_reload"
version = "0.1.0"
edition = "2021"
publish = false

[dependencies]
shaderc = "*"
ash = "0.38"
notify = "*"
log = "*"
fern = "*"
chrono = "*"
