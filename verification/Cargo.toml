[package]
name = "modpacks"
version = "0.1.0"
edition = "2021"
publish = false

[dependencies]
hex = "0.4"
json = "0.12"
roxmltree = "*"
sha1 = "0.10"
threadpool = "1"
ureq = "2"
zip = "*"
