[package]
name = "pyaket"
version = "0.1.0"
edition = "2021"
publish = false

[dependencies]
glob = "*"
shlex = "*"
xxhash-rust = { version = "*", features = ["xxh3"] }
flate2 = "*"
bzip2 = "*"
zstd = "*"
ureq = "*"
tar = "*"
zip = "*"
serde = { version = "*", features = ["derive"] }
serde_json = "*"
uuid = { version = "*", features = ["v4"] }
directories = "*"
temp-dir = "*"
dotenvy = "*"
