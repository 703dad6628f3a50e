[package]
name = "dr_write"
version = "0.1.0"
edition = "2021"
publish = false

[dependencies]
cookie = "*"
mime_guess = "2"
form_urlencoded = "1"
serde = { version = "1", features = ["derive"] }
serde_json = { version = "1", features = ["preserve_order"] }
futures = "0.3"
rust-embed = "*"
wasmbus-rpc = "*"
wasmcloud-interface-keyvalue = "*"
wasmcloud-interface-httpserver = "*"
wasmcloud-interface-httpclient = "*"
wasmcloud-interface-messaging = "*"
