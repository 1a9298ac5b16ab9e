[package]
name = "motor_control"
version = "0.1.0"
edition = "2021"
publish = false

[dependencies]
critical-section = "1"
esp-backtrace = { version = "0.13", features = ["esp32", "exception-handler", "panic-handler", "println"] }
esp-hal = { version = "0.19", features = ["esp32"] }
esp-println = { version = "0.10", features = ["esp32", "log"] }
log = "0.4"
