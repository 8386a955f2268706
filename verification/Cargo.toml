[package]
name = "saleae_importer"
version = "0.1.0"
edition = "2021"

[dependencies]
binrw = "0.10"
