[package]
name = "rem-extract"
version = "0.1.2"
edition = "2021"
publish = false

[dependencies]
syn = { version = "=2.0.119", features = ["full"] }
quote = "=1.0.47"
clap = { version = "=4.6.7", features = ["derive"] }
colored = "=2.2.0"
log = "=0.4.35"
lazy_static = "=1.5.1"
regex = "=1.13.1"
ra_ap_hir = "=0.0.238"
ra_ap_ide = "=0.0.238"
ra_ap_ide_assists = "=0.0.238"
ra_ap_ide_db = "=0.0.238"
ra_ap_load-cargo = "=0.0.238"
ra_ap_project_model = "=0.0.238"
ra_ap_syntax = "=0.0.238"
ra_ap_vfs = "=0.0.238"
