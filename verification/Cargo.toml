[package]
name = "streamshare"
version = "0.1.0"
edition = "2021"
publish = false

[dependencies]
sha2 = "*"
rand = "*"
anyhow = "*"
clap = { version = "*", features = ["derive"] }
quinn = { version = "*", default-features = false, features = ["runtime-tokio", "rustls-ring", "log"] }
rustls = { version = "*", features = ["ring"] }
rcgen = "*"
serde = { version = "*", features = ["derive"] }
serde_json = "*"
tokio = { version = "*", features = ["full"] }
which = "*"
winit = { version = "*", default-features = false, features = ["x11", "rwh_06"] }
pixels = "*"
egui = { version = "*", default-features = false, features = ["default_fonts"] }
egui-wgpu = { version = "*", default-features = false, features = ["winit"] }
egui-winit = { version = "*", default-features = false, features = ["x11"] }
