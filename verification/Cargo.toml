[package]
name = "coap_client"
version = "0.1.0"
edition = "2021"
publish = false

[dependencies]
futures = "=0.3.34"
percent-encoding = "=2.3.2"
tokio = { version = "=1.54.1", features = ["net", "time", "rt"] }
uri = "=0.3.0"
