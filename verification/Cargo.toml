[package]
name = "netavark_firewall"
version = "0.1.0"
edition = "2021"
publish = false

[dependencies]
iptables = "*"
zbus = "*"
futures = "*"
