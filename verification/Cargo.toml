[package]
name = "brightness_control"
version = "0.1.0"
edition = "2021"
publish = false

[dependencies]
serde = { version = "1", features = ["derive"] }
tauri = { version = "2", default-features = false, features = ["wry", "tray-icon", "image-png"] }
winapi = { version = "0.3.9", features = ["basetsd", "combaseapi", "errhandlingapi", "highlevelmonitorconfigurationapi", "lowlevelmonitorconfigurationapi", "minwindef", "oaidl", "objbase", "objidlbase", "oleauto", "physicalmonitorenumerationapi", "rpcdce", "unknwnbase", "wbemcli", "windef", "winerror", "wingdi", "winnt", "winuser", "wtypes"] }
