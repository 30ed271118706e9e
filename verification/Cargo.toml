[package]
name = "common_sense_coder"
version = "0.1.0"
edition = "2021"
publish = false

[dependencies]
anyhow = "1"
clap = { version = "4", features = ["derive", "env"] }
dotenvy = "*"
futures = "0.3"
itertools = "*"
lsp-client = "*"
lsp-types = "0.97"
rmcp = { version = "*", features = ["server", "macros", "transport-io"] }
serde = { version = "1", features = ["derive"] }
serde_json = "1"
tokio = { version = "1", features = ["fs", "io-std", "io-util", "macros", "process", "rt-multi-thread", "signal", "sync"] }
tokio-stream = { version = "*", features = ["sync"] }
tokio-util = "*"
tracing = "0.1"
tracing-subscriber = "*"
