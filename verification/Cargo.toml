[package]
name = "kctx"
version = "0.1.0"
edition = "2021"
publish = false

[dependencies]
anyhow = "1"
clap = { version = "4", features = ["derive"] }
clap_complete = { version = "4", features = ["unstable-dynamic"] }
console = "*"
dialoguer = { version = "*", features = ["fuzzy-select"] }
dirs = "*"
k8s-openapi = { version = "*", features = ["latest"] }
kube = { version = "*", features = ["client", "config"] }
serde = { version = "1", features = ["derive"] }
serde_json = "1"
serde_yaml = "*"
tokio = { version = "1", features = ["macros", "rt", "time"] }
