[package]
name = "rrstat"
version = "0.1.0"
edition = "2021"
publish = false

[dependencies]
addr2line = "0.21"
anyhow = "1"
clap = { version = "4", features = ["derive"] }
gimli = "0.28"
libc = "0.2"
memmap2 = "0.9"
object = "0.32"
perf-event = "0.4"
signal-hook = "0.3"
