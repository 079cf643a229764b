[package]
name = "pgcopy"
version = "0.1.0"
edition = "2021"
publish = false

[dependencies]
rand = "0.8"
chrono = "0.4"
postgres = { version = "0.19", features = ["with-chrono-0_4"] }
postgres-types = "0.2"
rust_decimal = { version = "1", features = ["db-postgres"] }
