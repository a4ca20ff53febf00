[package]
name = "spoiler_bot"
version = "0.1.0"
edition = "2021"
publish = false

[dependencies]
unicode-segmentation = "=1.13.3"
twilight-model = "=0.10.3"
twilight-http = "=0.10.3"
twilight-gateway = "=0.10.2"
twilight-cache-inmemory = { version = "=0.10.4", features = ["permission-calculator"] }
twilight-util = { version = "=0.10.1", features = ["builder"] }
twilight-validate = "=0.10.3"
twilight-interactions = "=0.10.1"
twilight-webhook = "=0.10.6"
sqlx = { version = "=0.9.0", default-features = false, features = ["postgres", "runtime-tokio"] }
tokio = { version = "=1.54.1", features = ["rt-multi-thread", "macros"] }
futures-util = "=0.3.34"
anyhow = "=1.0.104"
