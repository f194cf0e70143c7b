[package]
name = "remote_m8"
version = "0.1.0"
edition = "2021"
publish = false

[dependencies]
simple_slip = "=0.1.2"
tokio-util = { version = "=0.7.20", features = ["codec"] }
ringbuf = "=0.4.8"
tokio = { version = "=1.54.1", features = ["rt-multi-thread", "macros", "sync", "net", "time"] }
axum = { version = "=0.7.9", features = ["ws"] }
futures = "=0.3.34"
rubato = "=0.15.0"
cpal = "=0.15.3"
opus = "=0.3.1"
serialport = { version = "=4.10.1", default-features = false }
tokio-serial = { version = "5", default-features = false }
mime_guess = "=2.0.5"
macroquad = "=0.4.16"
quad-net = "=0.1.2"
