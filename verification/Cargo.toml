[package]
name = "stock_series"
version = "0.1.0"
edition = "2021"
publish = false

[dependencies]
chrono = { version = "=0.4.45", default-features = false, features = ["std"] }
odbc-api = { version = "=29.2.0", default-features = false, features = ["odbc_version_3_80"] }
