//! The application's settings.
//!
//! The configuration file is the only truth. One that cannot be read stands for the
//! defaults, and so does every field that it lacks.
use crate::daemon::{path_within, within};
use crate::text::string_view;
use vstd::prelude::*;

verus! {

/// 8 Mbit/s.
pub const DEFAULT_VIDEO_BIT_RATE: u32 = 8_000_000;

/// 128 kbit/s.
pub const DEFAULT_AUDIO_BIT_RATE: u32 = 128_000;

pub const DEFAULT_AUDIO_CODEC: &'static str = "opus";

pub fn default_video_bit_rate() -> (r: u32)
    ensures
        r == DEFAULT_VIDEO_BIT_RATE,
{
    DEFAULT_VIDEO_BIT_RATE
}

pub fn default_audio_bit_rate() -> (r: u32)
    ensures
        r == DEFAULT_AUDIO_BIT_RATE,
{
    DEFAULT_AUDIO_BIT_RATE
}

pub fn default_audio_codec() -> (r: String)
    ensures
        r@ == "opus"@,
{
    "opus".to_owned()
}

pub fn default_icon_theme() -> (r: String)
    ensures
        r@ == "dark"@,
{
    "dark".to_owned()
}

/// What the configuration file holds.
#[derive(Debug, Clone, PartialEq, Eq)]
pub struct AppConfig {
    /// Whether the daemon shall start when the user logs in.
    pub autostart_enabled: bool,
    /// In bit/s; 0 leaves it to the server.
    pub video_bit_rate: u32,
    /// In pixels; 0 sets no limit.
    pub video_max_size: u32,
    /// In frames per second; 0 sets no limit.
    pub video_max_fps: u32,
    /// In bit/s; 0 leaves it to the server.
    pub audio_bit_rate: u32,
    /// opus, aac, flac or raw.
    pub audio_codec: String,
    /// dark or light.
    pub icon_theme: String,
}

/// What the configuration file holds, as the contracts speak of it.
#[verifier::ext_equal]
pub struct Config {
    pub autostart_enabled: bool,
    pub video_bit_rate: u32,
    pub video_max_size: u32,
    pub video_max_fps: u32,
    pub audio_bit_rate: u32,
    pub audio_codec: Seq<char>,
    pub icon_theme: Seq<char>,
}

impl View for AppConfig {
    type V = Config;

    open spec fn view(&self) -> Config {
        Config {
            autostart_enabled: self.autostart_enabled,
            video_bit_rate: self.video_bit_rate,
            video_max_size: self.video_max_size,
            video_max_fps: self.video_max_fps,
            audio_bit_rate: self.audio_bit_rate,
            audio_codec: self.audio_codec@,
            icon_theme: self.icon_theme@,
        }
    }
}

impl Config {
    pub open spec fn standard() -> Config {
        Config {
            autostart_enabled: false,
            video_bit_rate: DEFAULT_VIDEO_BIT_RATE,
            video_max_size: 0,
            video_max_fps: 0,
            audio_bit_rate: DEFAULT_AUDIO_BIT_RATE,
            audio_codec: "opus"@,
            icon_theme: "dark"@,
        }
    }
}

impl Default for AppConfig {
    fn default() -> (r: Self)
        ensures
            r@ == Config::standard(),
    {
        AppConfig {
            autostart_enabled: false,
            video_bit_rate: DEFAULT_VIDEO_BIT_RATE,
            video_max_size: 0,
            video_max_fps: 0,
            audio_bit_rate: DEFAULT_AUDIO_BIT_RATE,
            audio_codec: default_audio_codec(),
            icon_theme: default_icon_theme(),
        }
    }
}

/// The encoding parameters that the server on the phone is started with.
#[derive(Debug, Clone, PartialEq, Eq)]
pub struct ScrcpyParams {
    pub video_bit_rate: u32,
    pub video_max_size: u32,
    pub video_max_fps: u32,
    pub audio_bit_rate: u32,
    pub audio_codec: String,
}

impl vstd::std_specs::convert::FromSpecImpl<&AppConfig> for ScrcpyParams {
    open spec fn obeys_from_spec() -> bool {
        true
    }

    open spec fn from_spec(cfg: &AppConfig) -> ScrcpyParams {
        ScrcpyParams {
            video_bit_rate: cfg.video_bit_rate,
            video_max_size: cfg.video_max_size,
            video_max_fps: cfg.video_max_fps,
            audio_bit_rate: cfg.audio_bit_rate,
            audio_codec: cfg.audio_codec,
        }
    }
}

impl From<&AppConfig> for ScrcpyParams {
    fn from(cfg: &AppConfig) -> (r: Self) {
        ScrcpyParams {
            video_bit_rate: cfg.video_bit_rate,
            video_max_size: cfg.video_max_size,
            video_max_fps: cfg.video_max_fps,
            audio_bit_rate: cfg.audio_bit_rate,
            audio_codec: cfg.audio_codec.clone(),
        }
    }
}

impl Default for ScrcpyParams {
    fn default() -> (r: Self)
        ensures
            r.video_bit_rate == DEFAULT_VIDEO_BIT_RATE,
            r.video_max_size == 0,
            r.video_max_fps == 0,
            r.audio_bit_rate == DEFAULT_AUDIO_BIT_RATE,
            r.audio_codec@ == "opus"@,
    {
        ScrcpyParams {
            video_bit_rate: DEFAULT_VIDEO_BIT_RATE,
            video_max_size: 0,
            video_max_fps: 0,
            audio_bit_rate: DEFAULT_AUDIO_BIT_RATE,
            audio_codec: default_audio_codec(),
        }
    }
}

/// The configuration that counts, where `parsed` is what the file says.
pub fn effective(parsed: Option<AppConfig>) -> (r: AppConfig)
    ensures
        match parsed {
            Some(c) => r == c,
            None => r@ == Config::standard(),
        },
{
    match parsed {
        Some(c) => c,
        None => AppConfig::default(),
    }
}

/// The path of the configuration file.
pub open spec fn config_place(
    windows: bool,
    appdata: Option<Seq<char>>,
    home: Option<Seq<char>>,
) -> Seq<char> {
    match (windows, appdata, home) {
        (true, Some(d), _) => within(windows, within(windows, d, "Kulua"@), "config.json"@),
        (_, _, Some(h)) => within(
            windows,
            within(windows, within(windows, h, ".config"@), "kulua"@),
            "config.json"@,
        ),
        _ => "kulua.json"@,
    }
}

/// Where the configuration file lies. `appdata` is the directory that Windows names for
/// application data, `home` the user's home directory elsewhere.
pub fn config_path(windows: bool, appdata: Option<String>, home: Option<String>) -> (r: String)
    ensures
        r@ == config_place(windows, string_view(appdata), string_view(home)),
{
    if windows {
        if let Some(d) = appdata {
            let kulua = path_within(windows, d.as_str(), "Kulua");
            return path_within(windows, kulua.as_str(), "config.json");
        }
    }
    match home {
        Some(h) => {
            let config = path_within(windows, h.as_str(), ".config");
            let kulua = path_within(windows, config.as_str(), "kulua");
            path_within(windows, kulua.as_str(), "config.json")
        },
        None => "kulua.json".to_owned(),
    }
}

/// The configuration file lies below the directory for application data on Windows, and else below the
/// user's directory; without either it lies here. Its name ends in `.json` in every case.
pub proof fn law_configuration_has_its_place(windows: bool, appdata: Seq<char>, home: Seq<char>)
    requires
        appdata.len() > 0 && home.len() > 0,
    ensures
        config_place(true, Some(appdata), Some(home)) == config_place(true, Some(appdata), None),
        config_place(true, Some(appdata), None).take(appdata.len() as int) == appdata,
        config_place(false, Some(appdata), Some(home)) == config_place(false, None, Some(home)),
        config_place(windows, None, Some(home)).take(home.len() as int) == home,
        config_place(windows, None, None) == "kulua.json"@,
        config_place(true, Some(appdata), None).skip(
            config_place(true, Some(appdata), None).len() - 11,
        ) == "config.json"@,
        config_place(windows, None, Some(home)).skip(
            config_place(windows, None, Some(home)).len() - 11,
        ) == "config.json"@,
{
    reveal_strlit("config.json");
    crate::daemon::law_path_goes_through_its_directory(true, appdata, "Kulua"@);
    let k = within(true, appdata, "Kulua"@);
    crate::daemon::law_path_goes_through_its_directory(true, k, "config.json"@);
    assert(within(true, k, "config.json"@).take(appdata.len() as int) =~= k.take(
        appdata.len() as int,
    ));
    crate::daemon::law_path_goes_through_its_directory(windows, home, ".config"@);
    let c = within(windows, home, ".config"@);
    crate::daemon::law_path_goes_through_its_directory(windows, c, "kulua"@);
    let d = within(windows, c, "kulua"@);
    crate::daemon::law_path_goes_through_its_directory(windows, d, "config.json"@);
    let p = within(windows, d, "config.json"@);
    assert(p.take(home.len() as int) =~= d.take(home.len() as int));
    assert(d.take(home.len() as int) =~= c.take(home.len() as int));
}

/// Without a configuration, nothing is started when the user logs in, the size and the rate of pictures
/// have no limit, audio is encoded with Opus and icons are dark.
pub proof fn law_standard_configuration()
    ensures
        ({
            let c = Config::standard();
            &&& !c.autostart_enabled
            &&& c.video_bit_rate == 8_000_000 && c.video_max_size == 0 && c.video_max_fps == 0
            &&& c.audio_bit_rate == 128_000 && c.audio_codec == "opus"@
            &&& c.icon_theme == "dark"@
        }),
{
}

} // verus!
