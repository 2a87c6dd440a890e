[package]
name = "emb_trial"
version = "0.1.0"
edition = "2021"
publish = false

[dependencies]
x86_64 = { version = "=0.15.5", default-features = false, features = ["instructions"] }
volatile = "=0.2.7"
lazy_static = "=1.5.1"
spin = "=0.12.3"
uart_16550 = "=0.3.2"
pic8259 = { version = "=0.11.0", default-features = false, features = ["stable"] }
