[package]
name = "quiche_tls"
version = "0.1.0"
edition = "2021"
publish = false

[dependencies]
aws-lc-rs = "=1.19.0"
boring = "4.22.0"
rustls = "=0.24.0-dev.0"
rustls-aws-lc-rs = "=0.1.0-dev.0"
