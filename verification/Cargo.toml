[package]
name = "agent_core"
version = "0.1.0"
edition = "2021"
publish = false

[dependencies]
serde_json = "*"
ureq = "*"
rayon = "*"
base64 = "*"
glam = "*"
