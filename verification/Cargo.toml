[package]
name = "shipyard_app"
version = "0.1.0"
edition = "2021"
publish = false

[dependencies]
shipyard = "0.5"
