[package]
name = "ocpp_station"
version = "0.1.0"
edition = "2021"
publish = false

[dependencies]
uuid = { version = "=1.27.0", features = ["v4"] }
chrono = "=0.4.45"
url = "=2.5.8"
ws = "=0.9.2"
