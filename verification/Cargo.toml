[package]
name = "btclip"
version = "0.1.0"
edition = "2021"
publish = false

[dependencies]
image = { version = "0.25", default-features = false, features = ["png", "jpeg", "bmp", "gif"] }
arboard = "3"
tokio = { version = "1", features = ["rt-multi-thread", "macros", "sync", "time"] }
winapi = { version = "0.3", features = ["winuser", "winbase", "shellapi"] }
windows = { version = "0.61", features = ["Devices_Bluetooth_Rfcomm", "Foundation", "Foundation_Collections", "Networking_Sockets", "Storage_Streams"] }
