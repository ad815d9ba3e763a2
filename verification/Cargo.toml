[package]
name = "spinnrd"
version = "0.1.0"
edition = "2021"
publish = false

[dependencies]
chrono = "0.4"
clap = "2"
daemonize = "*"
glob = "0.3"
lazy_static = "1"
libc = "0.2"
log = "0.4"
regex = "1"
signal = "*"
simplelog = "*"
syslog = "*"
