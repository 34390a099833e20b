[package]
name = "glopy"
version = "0.1.0"
edition = "2021"
publish = false

[dependencies]
globset = "0.4"
structopt = "0.3"
threadpool = "1"
walkdir = "2"
