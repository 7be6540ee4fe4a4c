//! What the methods need.
use vstd::prelude::*;

verus! {

/// The address of a device.
#[derive(Debug, Clone, PartialEq)]
pub struct DeviceSerial {
    pub serial: String,
}

/// The number of a device.
#[derive(Debug, Clone, PartialEq)]
pub struct UuidParam {
    pub uuid: String,
}

/// What the user has chosen for a device; what is not given stands for its default.
#[derive(Debug, Clone, PartialEq)]
pub struct SessionUpdate {
    pub uuid: String,
    pub clipboard_sync: Option<bool>,
    pub notification_sync: Option<bool>,
    pub audio_sync: Option<bool>,
    pub volume: Option<u32>,
}

/// Whether the daemon shall start when the user logs in.
#[derive(Debug, Clone, PartialEq)]
pub struct SetAutostart {
    pub enabled: bool,
}

/// The device whose applications are to be listed, and whether anew.
#[derive(Debug, Clone, PartialEq)]
pub struct AppListParams {
    pub uuid: String,
    pub force: bool,
}

/// The application that is to be shown.
#[derive(Debug, Clone, PartialEq)]
pub struct AppOpenParams {
    pub uuid: String,
    pub package_name: String,
}

/// How the phone shall encode; what is not given stays as it is.
#[derive(Debug, Clone, PartialEq)]
pub struct SetScrcpyParams {
    pub video_bit_rate: Option<u32>,
    pub video_max_size: Option<u32>,
    pub video_max_fps: Option<u32>,
    pub audio_bit_rate: Option<u32>,
    pub audio_codec: Option<String>,
}

/// How icons shall look.
#[derive(Debug, Clone, PartialEq)]
pub struct SetIconTheme {
    pub icon_theme: String,
}

/// What a method needs.
#[derive(Debug, Clone, PartialEq)]
pub enum Payload {
    DeviceConnect(DeviceSerial),
    DeviceDisconnect(DeviceSerial),
    SessionUpdate(SessionUpdate),
    SessionRetry(UuidParam),
    SessionStart(DeviceSerial),
    SetAutostart(SetAutostart),
    AppListParams(AppListParams),
    AppOpenParams(AppOpenParams),
    SetScrcpyParams(SetScrcpyParams),
    SetIconTheme(SetIconTheme),
}

} // verus!
