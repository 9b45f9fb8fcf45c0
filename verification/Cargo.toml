[package]
name = "dcs-kneeboard"
version = "0.1.0"
edition = "2021"
publish = false

[dependencies]
anyhow = "1"
image = { version = "0.25", default-features = false, features = ["png"] }
notify = "6"
notify-debouncer-mini = "0.4"
rubato = "0.15"
serde = { version = "1", features = ["derive"] }
serde_json = "1"
slint = { version = "~1.8", default-features = false, features = ["std", "compat-1-2"] }
strsim = "0.11"
toml = "0.8"
windows = { version = "0.58", features = ["Foundation", "Media_Core", "Media_Playback", "Media_SpeechSynthesis", "Storage_Streams", "Win32_Foundation", "Win32_System_Registry", "Win32_UI_WindowsAndMessaging"] }
