[package]
name = "mysql_binlog"
version = "0.1.0"
edition = "2021"
publish = false

[dependencies]
bigdecimal = "0.4"
byteorder = "1"
chrono = "0.4"
chrono-tz = "0.8"
crc32fast = "1"
hex = "0.4"
uuid = "1"
zstd = "0.13"
serde = { version = "1", features = ["derive"] }
serde_json = "1"
log = "0.4"
rt-format = "0.3"
async-channel = "2"
tokio = { version = "1", features = ["macros", "rt", "sync", "time"] }
tokio-context = "0.1"
