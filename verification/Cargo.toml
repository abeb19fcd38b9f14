[package]
name = "load_data"
version = "0.1.0"
edition = "2021"
publish = false

[dependencies]
binance-rs-async = "*"
chrono = "*"
polars = { version = "*", default-features = false, features = ["lazy", "csv", "dtype-datetime", "timezones"] }
