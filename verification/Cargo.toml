[package]
name = "mcsc_query"
version = "0.1.0"
edition = "2021"
publish = false

[dependencies]
binrw = "0.13"
rand = "0.8"
thiserror = "1"
