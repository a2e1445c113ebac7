[package]
name = "relm4"
version = "0.9.0"
edition = "2021"
publish = false

[dependencies]
flume = "0.11"
tokio = { version = "1", features = ["rt", "rt-multi-thread", "sync"] }
futures = "0.3"
once_cell = "1"
fragile = "2"
tracing = "0.1"
async-broadcast = "0.7"
async-oneshot = "0.5"
async-trait = "0.1"
gtk4 = "0.9"
libadwaita = "0.7"
libpanel = "0.5"
