[package]
name = "shimmy"
version = "0.1.0"
edition = "2021"
publish = false

[dependencies]
chrono = "*"
libc = "*"
log = "*"
mio = { version = "*", features = ["os-ext", "os-poll", "net"] }
nix = { version = "*", features = ["event", "fs", "poll", "process", "signal", "socket", "term"] }
structopt = "*"
syslog = "*"

[dev-dependencies]
serde_json = "*"
