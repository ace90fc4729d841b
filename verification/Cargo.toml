[package]
name = "coolbox_autofan"
version = "0.1.0"
edition = "2021"
publish = false

[dependencies]
actix-web = "=4.18.1"
argh = "=0.1.19"
bytes = "=1.12.1"
env_logger = "=0.11.11"
futures = "=0.3.34"
log = "=0.4.34"
serde = { version = "=1.0.229", features = ["derive"] }
serde_json = "=1.0.154"
serialport = { version = "=4.10.1", default-features = false }
utoipa = { version = "=5.5.0", features = ["actix_extras"] }
utoipa-actix-web = "=0.1.2"
utoipa-swagger-ui = { version = "=9.0.2", features = ["actix-web", "vendored"] }
