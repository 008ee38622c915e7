[package]
name = "osu_bot"
version = "0.1.0"
edition = "2021"
publish = false

[dependencies]
regex = "1"
reqwest = { version = "0.12", default-features = false, features = ["rustls-tls"] }
rosu-v2 = "*"
rosu-pp = "3"
poise = "0.6"
serenity = "0.12"
redb = "3"
tokio = { version = "1", features = ["full"] }
time = { version = "0.3", features = ["formatting", "parsing"] }
timeago = "0.4"
num-format = "0.4"
num-traits = "0.2"
bytes = "1"
strum = "0.27"
strum_macros = "0.27"
dotenvy = "0.15"
tracing = "0.1"
tracing-subscriber = "0.3"
