[package]
name = "pixiv-proxy"
version = "0.1.0"
edition = "2021"
publish = false

[dependencies]
miniz_oxide = "0.8"
image = { version = "0.25", default-features = false, features = ["jpeg", "png"] }
maud = "*"
percent-encoding = "2"
chrono = { version = "0.4", features = ["serde"] }
serde = { version = "1", features = ["derive"] }
serde_json = "1"
ureq = { version = "3", features = ["json"] }
rouille = "3"
pico-args = "0.5"
rss = "2"
libc = "0.2"

[dev-dependencies]
zip = { version = "2", default-features = false, features = ["deflate"] }
