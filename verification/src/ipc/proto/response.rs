//! What the methods answer.
use vstd::prelude::*;

verus! {

#[derive(Debug, Clone, PartialEq)]
pub struct DeviceList {
    pub devices: Vec<super::Device>,
}

#[derive(Debug, Clone, PartialEq)]
pub struct ClipboardGet {
    pub text: String,
}

#[derive(Debug, Clone, PartialEq)]
pub struct PairingInfo {
    pub dns_id: String,
    pub psk: String,
    pub wifi_string: String,
}

#[derive(Debug, Clone, PartialEq)]
pub struct Settings {
    /// What the user wants.
    pub autostart_enabled: bool,
    /// Whether the system can start programs.
    pub autostart_supported: bool,
    pub video_bit_rate: u32,
    pub video_max_size: u32,
    pub video_max_fps: u32,
    pub audio_bit_rate: u32,
    pub audio_codec: String,
    pub icon_theme: String,
}

#[derive(Debug, Clone, PartialEq)]
pub struct AppList {
    pub apps: Vec<super::AppInfo>,
    /// Whether applications can be shown in windows.
    pub fusion_supported: bool,
}

#[derive(Debug, Clone, PartialEq)]
pub struct AppOpen {
    pub window_id: u64,
    /// Where the phone is reached.
    pub addr: String,
}

/// What a method answers.
#[derive(Debug, Clone, PartialEq)]
pub enum Payload {
    DeviceList(DeviceList),
    AdbList(DeviceList),
    ClipboardGet(ClipboardGet),
    PairingInfo(PairingInfo),
    Settings(Settings),
    AppList(AppList),
    AppOpen(AppOpen),
}

} // verus!
