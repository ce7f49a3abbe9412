[package]
name = "lua_actor"
version = "0.1.0"
edition = "2021"
publish = false

[dependencies]
rlua = "=0.20.1"
mlua = { version = "=0.9.9", features = ["send"] }
fp_rust = "=0.3.5"
