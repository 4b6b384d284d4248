[package]
name = "simple_chat_backend"
version = "0.1.0"
edition = "2021"
publish = false

[dependencies]
base64 = "0.22"
chrono = "0.4"
pbkdf2 = "0.12"
sha2 = "0.10"
subtle = "2"
rand = "0.8"
serde = { version = "1", features = ["derive"] }
serde_json = "1"
axum = { version = "0.8", features = ["ws"] }
tokio = { version = "1", features = ["full"] }
tower-http = { version = "0.6", features = ["cors"] }
futures = "0.3"
tracing = "0.1"
tracing-subscriber = { version = "0.3", features = ["env-filter", "json"] }
lambda_http = "*"
lambda_runtime = "*"
aws_lambda_events = { version = "*", default-features = false, features = ["apigw"] }
aws-config = "1"
aws-credential-types = "1"
aws-sdk-dynamodb = "1"
aws-sdk-apigatewaymanagement = "1"
serde_dynamo = { version = "4", features = ["aws-sdk-dynamodb+1"] }
query_map = "*"
