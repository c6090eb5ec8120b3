[package]
name = "balancer"
version = "0.1.0"
edition = "2021"
publish = false

[dependencies]
axum = "*"
confy = "*"
dialoguer = "*"
dotenvy = "*"
indicatif = "*"
log = "*"
log4rs = "*"
netstat2 = "*"
reqwest = { version = "*", default-features = false, features = ["json"] }
serde = { version = "*", features = ["derive"] }
serde_json = "*"
serde_yaml = "*"
sqlx = { version = "*", default-features = false, features = ["runtime-tokio", "postgres", "migrate"] }
sysinfo = "*"
tokio = { version = "*", features = ["full"] }
