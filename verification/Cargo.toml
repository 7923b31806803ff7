[package]
name = "tnid"
version = "0.1.0"
edition = "2021"
publish = false

[dependencies]
aes = "=0.8.4"
fpe = "=0.6.1"
aho-corasick = "=1.1.5"
rand = "=0.8.8"
time = "=0.3.55"
uuid = { version = "=1.29.0", features = ["v4"] }
clap = { version = "=4.6.7", features = ["derive", "env"] }
serde = "=1.0.229"

[dev-dependencies]
serde_json = "=1.0.154"
proptest = { version = "1", default-features = false, features = ["std"] }
