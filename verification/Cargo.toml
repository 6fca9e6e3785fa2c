[package]
name = "arc_reactor"
version = "0.1.0"
edition = "2021"
publish = false

[dependencies]
num_cpus = "1"
percent-encoding = "1"
mime_guess = "1"
hyper = "0.12"
http = "0.1"
tokio = "0.1"
futures = "0.1"
native-tls = "0.2"
tokio-tls = "0.2"
