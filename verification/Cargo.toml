[package]
name = "calc_summary"
version = "0.1.0"
edition = "2021"
publish = false

[dependencies]
chrono = "=0.4.45"
serde_json = { version = "=1.0.154", features = ["float_roundtrip"] }
uuid = "=1.29.0"
csv = "=1.4.0"
diesel = { version = "=2.3.14", features = ["postgres", "chrono", "serde_json", "uuid"] }
dotenvy = "=0.15.7"
thousands = "=0.2.0"
aws-config = "1"
aws-sdk-s3 = "1"
tokio = { version = "1", features = ["macros", "rt-multi-thread"] }
