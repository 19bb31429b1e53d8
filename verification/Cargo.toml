[package]
name = "pc_checker"
version = "0.1.0"
edition = "2021"
publish = false

[dependencies]
chrono = "0.4"
roxmltree = "0.20"
serde = { version = "1", features = ["derive"] }
serde_json = "1"
windows = { version = "=0.57.0", features = ["Win32_Devices_DeviceAndDriverInstallation", "Win32_Foundation", "Win32_Graphics_Direct3D", "Win32_Graphics_Direct3D12", "Win32_Graphics_Direct3D_Fxc", "Win32_Graphics_Dxgi", "Win32_Graphics_Dxgi_Common", "Win32_Security", "Win32_Storage_FileSystem", "Win32_System_EventLog", "Win32_System_IO", "Win32_System_LibraryLoader", "Win32_System_Power", "Win32_System_Registry", "Win32_System_SystemInformation", "Win32_System_Threading"] }
