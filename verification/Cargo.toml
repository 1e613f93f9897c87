[package]
name = "okey"
version = "0.1.0"
edition = "2021"
publish = false

[dependencies]
anyhow = "1"
windows-service = "*"
windows = { version = "*", features = ["Win32_Foundation", "Win32_Devices_DeviceAndDriverInstallation", "Win32_Devices_HumanInterfaceDevice", "Win32_Devices_Properties", "Win32_UI_Input", "Win32_Security", "Win32_System_RemoteDesktop", "Win32_System_Threading"] }
