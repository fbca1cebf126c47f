[package]
name = "aquafeed"
version = "0.1.0"
edition = "2021"
publish = false

[dependencies]
hex = "=0.4.3"
chrono = "=0.4.45"
configparser = "=3.3.0"
log = "0.4"
simple-logging = "2"
paho-mqtt = "*"
postgres = { version = "=0.19.14", features = ["with-chrono-0_4"] }
r2d2 = "0.8"
r2d2_postgres = "0.18"
