[package]
name = "netscan"
version = "0.1.0"
edition = "2021"
publish = false

[dependencies]
dns-lookup = "*"
pnet = "*"
pnet_datalink = "*"
