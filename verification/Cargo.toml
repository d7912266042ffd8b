[package]
name = "obstore"
version = "0.1.0"
edition = "2021"
publish = false

[dependencies]
humantime = "=2.4.0"
object_store = "=0.11.2"
tokio = { version = "=1.53.2", features = ["rt-multi-thread"] }
futures = "=0.3.34"
url = "=2.5.8"
chrono = "0.4"
