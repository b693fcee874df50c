[package]
name = "cognito-user-manager"
version = "0.1.0"
edition = "2021"
publish = false

[dependencies]
base64 = "=0.22.1"
getrandom = "=0.3.4"
hmac = "=0.12.1"
sha2 = "=0.10.9"
qrcode = { version = "=0.14.1", default-features = false, features = ["svg"] }
serde = { version = "=1.0.229", features = ["derive"] }
serde_json = "=1.0.154"
axum = "=0.8.9"
tokio = { version = "=1.54.1", features = ["full"] }
tower-cookies = "=0.11.0"
tower-http = { version = "=0.6.11", features = ["fs"] }
jsonwebtoken = { version = "=11.1.0", features = ["rust_crypto"] }
ureq = { version = "=3.5.1", features = ["json"] }
rust-i18n = "=3.1.5"
rust-i18n-support = "=3.1.5"
tracing = "=0.1.44"
tracing-subscriber = { version = "=0.3.23", features = ["env-filter"] }
dotenvy = "=0.15.7"
aws-config = { version = "=1.13.0", features = ["behavior-version-latest"] }
aws-sdk-cognitoidentityprovider = "=1.144.0"
aws-smithy-types = "=1.9.1"
aws-smithy-http-client = { version = "=1.5.2", features = ["rustls-ring"] }
