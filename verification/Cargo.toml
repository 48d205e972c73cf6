[package]
name = "diceroller_api"
version = "0.1.0"
edition = "2021"
publish = false

[dependencies]
rand = "0.9"
actix-web = "4"
env_logger = "0.11"
