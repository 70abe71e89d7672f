[package]
name = "microbin"
version = "0.1.0"
edition = "2021"
publish = false

[dependencies]
actix-web = "4"
actix-multipart = "0.6"
askama = "0.12"
log = "0.4"
magic-crypt = "3"
harsh = "0.2"
futures = "0.3"
