[package]
name = "pipeline_trigger"
version = "0.1.0"
edition = "2021"
publish = false

[dependencies]
aws-config = "0.55"
aws-credential-types = "0.55"
aws-sdk-sfn = "0.28"
aws-sigv4 = "0.55"
aws-smithy-http = "0.55"
http = "0.2"
lambda_runtime = "0.8"
reqwest = { version = "0.11", default-features = false, features = ["rustls-tls"] }
serde = { version = "1", features = ["derive"] }
serde_json = "1"
simple-error = "0.3"
time = { version = "0.3", features = ["parsing", "formatting"] }
tokio = { version = "1", features = ["macros", "rt-multi-thread"] }
tracing = "0.1"
tracing-subscriber = { version = "0.3", default-features = false, features = ["fmt"] }
url = "2"

[dev-dependencies]
rand = "0.8"
