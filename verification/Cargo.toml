[package]
name = "devstrap"
version = "0.1.0"
edition = "2021"
publish = false

[dependencies]
cliclack = "*"
git2 = "*"
home = "*"

[dev-dependencies]
toml = "*"
