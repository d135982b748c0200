[package]
name = "haraltr"
version = "0.1.0"
edition = "2021"
publish = false

[dependencies]
argon2 = { version = "*", features = ["std"] }
axum = "*"
axum-extra = { version = "*", features = ["cookie"] }
bdaddr = "*"
btmgmt = "*"
btmgmt-packet = "*"
clap = { version = "*", features = ["derive"] }
cookie = "*"
evdev = "*"
futures = "*"
futures-lite = "*"
hex = "*"
libc = "*"
nonstick = "*"
rand = "*"
rpassword = "*"
serde = { version = "*", features = ["derive"] }
serde_json = "*"
syslog = "*"
tokio = { version = "*", features = ["full"] }
tokio-stream = { version = "*", features = ["sync"] }
toml = "*"
tracing = "*"
tracing-subscriber = { version = "*", features = ["env-filter"] }
validator = { version = "*", features = ["derive"] }
xdg = "*"
zbus = { version = "*", features = ["tokio"] }
zeroize = "*"
