[package]
name = "schema_resolver"
version = "0.1.0"
edition = "2021"
publish = false

[dependencies]
pg_query = "0.6"
clap = { version = "3", features = ["derive"] }
ignore = "0.4"
regex = "1"
