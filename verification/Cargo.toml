[package]
name = "pdf_layout"
version = "0.1.0"
edition = "2021"
publish = false

[dependencies]
anyhow = "=1.0.104"
rand = "=0.8.8"
reqwest = "=0.13.5"
sci-rs = "=0.4.1"
scraper = "=0.29.0"
