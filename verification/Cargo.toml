[package]
name = "tf_demo_parser"
version = "0.1.0"
edition = "2021"
publish = false

[dependencies]
bitbuffer = "*"
bitstream_reader = "*"
num-traits = "0.2"
enum-primitive-derive = "*"
pyo3 = "0.20"
schemars = "0.8"
serde = { version = "1", features = ["derive"] }
