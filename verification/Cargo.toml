[package]
name = "gbm_platform"
version = "0.1.0"
edition = "2021"
publish = false

[dependencies]
calloop = "=0.4.4"
drm = "=0.4.0"
gbm = { version = "0.6", default-features = false, features = ["drm-support"] }
