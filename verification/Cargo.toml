[package]
name = "usb_platform"
version = "0.1.0"
edition = "2021"
publish = false

[dependencies]
log = "0.4"
windows-sys = { version = "0.48", features = ["Win32_Foundation", "Win32_Devices_Usb", "Win32_Devices_Properties", "Win32_Devices_DeviceAndDriverInstallation", "Win32_Storage_FileSystem", "Win32_Security", "Win32_System_IO"] }
