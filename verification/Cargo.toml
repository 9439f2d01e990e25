[package]
name = "cells-worker"
version = "0.1.0"
edition = "2021"
publish = false

[dependencies]
k8s-openapi = { version = "=0.27.1", features = ["latest"] }
kube = "=3.1.0"
prost = "=0.13.5"
serde_json = "=1.0.154"
tokio = { version = "=1.54.1", features = ["macros", "rt-multi-thread", "sync", "time"] }
tonic = "=0.12.3"
