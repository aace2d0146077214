[package]
name = "dns_relay"
version = "0.1.0"
edition = "2021"
publish = false

[dependencies]
log = "0.4"
trust-dns-proto = "0.23"
trust-dns-resolver = "0.23"
