[package]
name = "torch-check"
version = "0.1.0"
edition = "2021"
publish = false

[dependencies]
clap = { version = "4", features = ["derive", "env", "string"] }
clap_complete = "4"
clap_mangen = "0.2"
csv = "1"
directories = "*"
fs2 = "0.4"
futures-util = "0.3"
html5ever = "*"
libc = "0.2"
pep440_rs = "*"
percent-encoding = "2"
regex = "1"
reqwest = { version = "0.12", default-features = false, features = ["rustls-tls", "stream", "gzip"] }
rustix = { version = "1", features = ["process"] }
serde = { version = "1", features = ["derive"] }
serde_json = "1"
shell-escape = "0.1"
tempfile = "3"
terminal_size = "*"
thiserror = "2"
tokio = { version = "1", features = ["macros", "rt-multi-thread", "time"] }
unicode-width = "*"
url = "2"
wait-timeout = "0.2"
