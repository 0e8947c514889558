[package]
name = "bevy_typst_textures"
version = "0.1.0"
edition = "2021"
publish = false

[dependencies]
async-channel = "=2.5.0"
bevy_app = { version = "=0.20.0", default-features = false }
bevy_ecs = { version = "=0.20.0", default-features = false }
bevy_reflect = { version = "=0.20.0", default-features = false }
bevy_tasks = { version = "=0.20.0", default-features = false }
derive_more = { version = "=2.1.1", features = ["display", "error"] }
serde = { version = "=1.0.229", features = ["derive"] }
serde_json = "=1.0.154"
toml = "=1.1.8"
typst = "=0.15.1"
typst-as-lib = "=0.17.0"
typst-layout = "=0.15.1"
typst-render = "=0.15.1"
zip = { version = "=9.1.0", default-features = false, features = ["deflate"] }

[dev-dependencies]
typst-assets = { version = "=0.15.1", features = ["fonts"] }
