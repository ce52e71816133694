[package]
name = "elmo_sqlite3"
version = "0.1.0"
edition = "2021"

[dependencies]
sqlite3 = "*"
