[package]
name = "diesel_turso"
version = "0.1.0"
edition = "2021"
publish = false

[dependencies]
async-trait = "=0.1.92"
bb8 = "=0.9.1"
chrono = "=0.4.45"
deadpool = "=0.13.1"
dotenvy = "*"
futures-core = "=0.3.34"
futures-util = "=0.3.34"
mobc = "=0.9.0"
mysql_async = { version = "=0.37.1", default-features = false, features = ["minimal-rust"] }
mysql_common = { version = "=0.37.3", default-features = false }
rustc-hash = "=2.1.3"
scoped-futures = "=0.1.4"
serde_json = "=1.0.154"
thiserror = "=2.0.21"
tokio-postgres = "=0.7.18"
tracing = "=0.1.44"
turso = "=0.8.3"
uuid = "=1.29.0"
