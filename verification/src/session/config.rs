//! What the user has chosen for a device.
use crate::text::copy_text;
use vstd::prelude::*;

verus! {

/// What the user has chosen for a device.
#[derive(Debug, Clone)]
pub struct SessionConfig {
    pub clipboard_sync: bool,
    pub notification_sync: bool,
    pub audio_enabled: bool,
    /// In percent.
    pub volume: u16,
    /// opus, aac, flac or raw.
    pub audio_codec: String,
}

/// What the user has chosen for a device, as the contracts speak of it.
#[verifier::ext_equal]
pub struct Choice {
    pub clipboard_sync: bool,
    pub notification_sync: bool,
    pub audio_enabled: bool,
    pub volume: u16,
    pub audio_codec: Seq<char>,
}

impl View for SessionConfig {
    type V = Choice;

    open spec fn view(&self) -> Choice {
        Choice {
            clipboard_sync: self.clipboard_sync,
            notification_sync: self.notification_sync,
            audio_enabled: self.audio_enabled,
            volume: self.volume,
            audio_codec: self.audio_codec@,
        }
    }
}

impl Choice {
    /// Everything is passed on, at 80 percent of the volume.
    pub open spec fn standard() -> Choice {
        Choice {
            clipboard_sync: true,
            notification_sync: true,
            audio_enabled: true,
            volume: 80,
            audio_codec: "opus"@,
        }
    }
}

impl Default for SessionConfig {
    fn default() -> (r: Self)
        ensures
            r@ == Choice::standard(),
    {
        SessionConfig {
            clipboard_sync: true,
            notification_sync: true,
            audio_enabled: true,
            volume: 80,
            audio_codec: crate::settings::default_audio_codec(),
        }
    }
}

impl SessionConfig {
    pub fn duplicate(&self) -> (r: Self)
        ensures
            r@ == self@,
    {
        SessionConfig {
            clipboard_sync: self.clipboard_sync,
            notification_sync: self.notification_sync,
            audio_enabled: self.audio_enabled,
            volume: self.volume,
            audio_codec: copy_text(&self.audio_codec),
        }
    }
}

} // verus!
