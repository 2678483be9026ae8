[package]
name = "spark_connect_proxy"
version = "0.1.0"
edition = "2021"
publish = false

[dependencies]
uuid = { version = "1", features = ["v4"] }
local-ip-address = "*"
axum = "*"
clap = { version = "4", features = ["derive"] }
env_logger = "*"
figment = { version = "*", features = ["json"] }
futures-util = "*"
http = "1"
hyper = { version = "1", features = ["client", "server", "http1", "http2"] }
hyper-util = { version = "*", features = ["tokio", "server-auto"] }
log = "*"
rustls = { version = "*", default-features = false, features = ["ring", "logging", "std", "tls12"] }
rustls-pemfile = "2"
serde = { version = "1", features = ["derive"] }
tokio = { version = "1", features = ["full"] }
tokio-rustls = { version = "*", default-features = false, features = ["ring", "logging", "tls12"] }
tower = { version = "*", features = ["util"] }
tower-http = { version = "*", features = ["auth"] }
which = "*"
