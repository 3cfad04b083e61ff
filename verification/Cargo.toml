[package]
name = "sql_planner"
version = "0.1.0"
edition = "2021"
publish = false

[dependencies]
async-backtrace = "0.2"
serde = { version = "1", features = ["derive"] }
