[package]
name = "rusty-autossh"
version = "0.2.0"
edition = "2021"
publish = false

[dependencies]
atomicwrites = "0.4"
clap = { version = "4", features = ["derive"] }
clap_complete = "4"
daemonize = "0.5"
socket2 = "0.5"
thiserror = "2"
tokio = { version = "1", features = ["rt", "rt-multi-thread", "macros", "process", "net", "signal", "sync", "time", "io-util"] }
tracing-appender = "0.2"
windows-sys = { version = "0.59", features = ["Win32_Foundation", "Win32_System_Threading"] }
