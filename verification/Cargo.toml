[package]
name = "autorpg-mcp"
version = "0.1.0"
edition = "2021"
publish = false

[dependencies]
base64 = "0.22"
enigo = { version = "0.6", default-features = false, features = ["x11rb"] }
fast_image_resize = "5"
image = { version = "0.25", default-features = false, features = ["jpeg"] }
log = "0.4"
rand = "0.9"
rmcp = { version = "2", features = ["server", "macros", "transport-io"] }
serde = { version = "1", features = ["derive"] }
serde_json = "1"
tokio = { version = "1", features = ["full"] }
toml = "0.9"
windows-capture = "2"
