[package]
name = "typst_core"
version = "0.1.0"
edition = "2021"
publish = false

[dependencies]
flate2 = "=1.1.10"
typst = "=0.15.1"
typst-ide = "=0.15.1"
typst-svg = "=0.15.1"
typst-html = "=0.15.1"
typst-layout = "=0.15.1"
typst-assets = { version = "=0.15.1", features = ["fonts"] }
chrono = "=0.4.45"
