[package]
name = "rok"
version = "0.1.0"
edition = "2021"
publish = false

[dependencies]
clap = "2.33"
home = "0.5"
rustyline = "9"
