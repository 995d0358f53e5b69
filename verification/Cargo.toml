[package]
name = "releash"
version = "0.1.0"
edition = "2021"
publish = false

[dependencies]
rand = "*"
hmac = "*"
sha2 = "*"
regex = "*"
serde = { version = "*", features = ["derive"] }
serde_json = "*"
toml = "*"
git2 = { version = "*", default-features = false }
ignore = "*"
notify-debouncer-mini = "*"
portable-pty = "*"
qrcode = { version = "*", default-features = false, features = ["svg"] }
rcgen = "*"
rustls-pemfile = "*"
tokio = { version = "*", features = ["rt-multi-thread", "net", "sync", "time", "macros", "io-util"] }
tokio-rustls = { version = "*", default-features = false, features = ["ring", "tls12"] }
tokio-tungstenite = "*"
hyper = { version = "*", features = ["server", "http1"] }
hyper-util = { version = "*", features = ["tokio"] }
http-body-util = "*"
futures-util = "*"
