[package]
name = "epaper"
version = "0.1.0"
edition = "2021"
publish = false

[dependencies]
embedded-graphics = "0.8"
embedded-hal = "1"
esp-alloc = { version = "*", features = ["esp32s3"] }
esp-backtrace = { version = "*", features = ["esp32s3", "panic-handler", "println"] }
esp-bootloader-esp-idf = { version = "*", features = ["esp32s3"] }
esp-hal = { version = "1", features = ["esp32s3", "unstable"] }
esp-println = { version = "*", features = ["esp32s3", "log-04"] }
log = "0.4"
