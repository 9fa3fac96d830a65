[package]
name = "pith"
version = "0.1.0"
edition = "2021"
publish = false

[dependencies]
serde = { version = "1", features = ["derive"] }
serde_json = "1"
hidapi = { version = "2", default-features = false, features = ["linux-native-basic-udev"] }
serialport = { version = "4", default-features = false }
log = "0.4"
embedded-graphics = "0.8"
embedded-hal = "1"
mipidsi = "0.9"
u8g2-fonts = "*"
esp-idf-svc = "*"
