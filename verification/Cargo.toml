[package]
name = "mdgreet"
version = "0.1.0"
edition = "2021"
publish = false

[dependencies]
lru = "*"
shlex = "*"
material-colors = "0.4"
gettext-rs = { version = "*", features = ["gettext-system"] }
css-color-parser2 = "*"
serde = { version = "1", features = ["derive"] }
serde_json = "1"
toml = "*"
figment = { version = "*", features = ["toml", "env"] }
clap = { version = "4", features = ["derive"] }
tokio = { version = "1", features = ["rt-multi-thread", "macros", "net"] }
greetd_ipc = { version = "*", features = ["tokio-codec"] }
chrono = "*"
libc = "*"
pwd = "*"
zbus = "*"
anyhow = "1"
image = { version = "*", default-features = false, features = ["png", "jpeg"] }
tracing = "*"
tracing-subscriber = { version = "*", features = ["env-filter", "local-time"] }
tracing-appender = "*"
