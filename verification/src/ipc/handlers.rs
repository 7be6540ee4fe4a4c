//! What each method does: it checks what it was given and says what the daemon is to do, or
//! answers at once.
use super::proto::{request, response, Request, Response, RpcError};
use crate::app::Command;
use crate::apps::AppInfo;
use crate::autostart::AutostartState;
use crate::device_map::DeviceMap;
use crate::settings::AppConfig;
use crate::text::{cat2, copy_text, same};
use crate::types::{read_uuid, Device};
use crate::wireless_pair::WirelessPairing;
use vstd::prelude::*;

verus! {

/// The code of every error.
pub const ERROR_CODE: i32 = -1;

/// How long a list of applications is waited for: 30 seconds, in nanoseconds.
pub const APP_LIST_WAIT: u64 = 30_000_000_000;

/// How long a window is waited for: 10 seconds, in nanoseconds.
pub const APP_OPEN_WAIT: u64 = 10_000_000_000;

/// `r` answers request `id` with `result`.
pub open spec fn is_result(r: Response, id: u64, result: response::Payload) -> bool {
    r.id == id && r.result == Some(result) && r.error is None
}

/// `r` answers request `id` with nothing but that it succeeded.
pub open spec fn is_ok(r: Response, id: u64) -> bool {
    r.id == id && r.result is None && r.error is None
}

/// `r` answers request `id` with an error.
pub open spec fn is_error(r: Response, id: u64, message: Seq<char>) -> bool {
    r.id == id && r.result is None && (r.error matches Some(e) && e.code == ERROR_CODE && e.message@
        == message)
}

pub fn make_result(id: u64, result: response::Payload) -> (r: Response)
    ensures
        is_result(r, id, result),
{
    Response { id, result: Some(result), error: None }
}

pub fn make_ok(id: u64) -> (r: Response)
    ensures
        is_ok(r, id),
{
    Response { id, result: None, error: None }
}

pub fn make_error(id: u64, code: i32, message: &str) -> (r: Response)
    ensures
        r.id == id,
        r.result is None,
        r.error matches Some(e) && e.code == code && e.message@ == message@,
{
    Response { id, result: None, error: Some(RpcError { code, message: message.to_owned() }) }
}

fn fail(id: u64, message: &str) -> (r: Response)
    ensures
        is_error(r, id, message@),
{
    make_error(id, ERROR_CODE, message)
}

/// `device.list`: the devices.
pub fn device_list(req: &Request, merged: &[Device]) -> (r: Response)
    ensures
        r.id == req.id,
        r.error is None,
        r.result matches Some(response::Payload::DeviceList(l))
            && super::proto::tells_devices(l.devices@, crate::types::device_views(merged@)),
{
    let devices = super::proto::tell_devices(merged);
    make_result(req.id, response::Payload::DeviceList(response::DeviceList { devices }))
}

/// `device.adb_list`: the devices that adb lists.
pub fn device_adb_list(req: &Request, adb: &DeviceMap) -> (r: Response)
    ensures
        r.id == req.id,
        r.error is None,
        r.result matches Some(response::Payload::AdbList(l))
            && super::proto::tells_devices(l.devices@, adb@),
{
    let devices = tell_listed(adb);
    make_result(req.id, response::Payload::AdbList(response::DeviceList { devices }))
}

/// The messages that tell of the devices that adb lists.
pub fn tell_listed(adb: &DeviceMap) -> (devices: Vec<super::proto::Device>)
    ensures
        super::proto::tells_devices(devices@, adb@),
{
    let mut devices: Vec<super::proto::Device> = Vec::new();
    let mut i: usize = 0;
    while i < adb.len()
        invariant
            i <= adb@.len(),
            devices@.len() == i,
            forall|j: int|
                0 <= j < i ==> super::proto::tells_device(#[trigger] devices@[j], adb@[j]),
        decreases adb@.len() - i,
    {
        devices.push(super::proto::Device::from(adb.at(i)));
        i += 1;
    }
    devices
}

/// What the daemon answers once it has tried to hand a command to the core.
pub fn after_command(id: u64, sent: bool) -> (r: Response)
    ensures
        if sent {
            is_ok(r, id)
        } else {
            is_error(r, id, "core 正在关闭"@)
        },
{
    if sent {
        make_ok(id)
    } else {
        fail(id, "core 正在关闭")
    }
}

/// `r` says what `wish` says: what the core is to do, or why it is not asked.
pub open spec fn meets(
    r: Result<Command, Response>,
    id: u64,
    wish: Result<crate::app::CommandView, Seq<char>>,
) -> bool {
    match (r, wish) {
        (Ok(c), Ok(v)) => c@ == v,
        (Err(e), Err(m)) => is_error(e, id, m),
        _ => false,
    }
}

/// What `device.connect` asks for.
pub open spec fn connect_wish(p: Option<request::Payload>) -> Result<
    crate::app::CommandView,
    Seq<char>,
> {
    match p {
        Some(request::Payload::DeviceConnect(p)) => if p.serial@.len() == 0 {
            Err("缺少 serial 参数"@)
        } else {
            Ok(crate::app::CommandView::Connect(p.serial@))
        },
        _ => Err("缺少 device.connect 参数"@),
    }
}

/// What `device.disconnect` asks for.
pub open spec fn disconnect_wish(p: Option<request::Payload>) -> Result<
    crate::app::CommandView,
    Seq<char>,
> {
    match p {
        Some(request::Payload::DeviceDisconnect(p)) => if p.serial@.len() == 0 {
            Err("缺少 serial 参数"@)
        } else {
            Ok(crate::app::CommandView::Disconnect(p.serial@))
        },
        _ => Err("缺少 device.disconnect 参数"@),
    }
}

/// What `session.start` asks for.
pub open spec fn start_wish(p: Option<request::Payload>) -> Result<
    crate::app::CommandView,
    Seq<char>,
> {
    match p {
        Some(request::Payload::SessionStart(p)) => if p.serial@.len() == 0 {
            Err("缺少 serial 参数"@)
        } else {
            Ok(crate::app::CommandView::StartSession(p.serial@))
        },
        _ => Err("缺少 session.start 参数"@),
    }
}

/// What `session.update` asks for. What is not given stands for its default: both kinds of
/// sync on, audio off, 80 percent; more than 100 percent is 100.
pub open spec fn update_wish(p: request::SessionUpdate, uuid: Option<u128>) -> Result<
    crate::app::CommandView,
    Seq<char>,
> {
    if p.uuid@.len() == 0 {
        Err("缺少 uuid 参数"@)
    } else {
        match uuid {
            Some(uuid) => Ok(
                crate::app::CommandView::UpdateConfig {
                    uuid,
                    clipboard_sync: match p.clipboard_sync {
                        Some(b) => b,
                        None => true,
                    },
                    notification_sync: match p.notification_sync {
                        Some(b) => b,
                        None => true,
                    },
                    audio_sync: match p.audio_sync {
                        Some(b) => b,
                        None => false,
                    },
                    volume: match p.volume {
                        Some(v) => if v < 100 {
                            v as u16
                        } else {
                            100
                        },
                        None => 80,
                    },
                },
            ),
            None => Err("无效 uuid 格式"@),
        }
    }
}

/// What `session.retry` asks for.
pub open spec fn retry_wish(given: Seq<char>, uuid: Option<u128>) -> Result<
    crate::app::CommandView,
    Seq<char>,
> {
    if given.len() == 0 {
        Err("缺少 uuid 参数"@)
    } else {
        match uuid {
            Some(u) => Ok(crate::app::CommandView::Retry(u)),
            None => Err("无效 uuid 格式"@),
        }
    }
}

/// What `app.list` asks for.
pub open spec fn app_list_wish(force: bool, uuid: Option<u128>) -> Result<
    crate::app::CommandView,
    Seq<char>,
> {
    match uuid {
        Some(uuid) => Ok(crate::app::CommandView::ListApps { uuid, force }),
        None => Err("无效 uuid 格式"@),
    }
}

/// What `app.open` asks for.
pub open spec fn app_open_wish(package_name: Seq<char>, uuid: Option<u128>) -> Result<
    crate::app::CommandView,
    Seq<char>,
> {
    match uuid {
        Some(uuid) => if package_name.len() == 0 {
            Err("缺少 package_name 参数"@)
        } else {
            Ok(crate::app::CommandView::OpenApp { uuid, package_name })
        },
        None => Err("无效 uuid 格式"@),
    }
}

/// What a method that the core carries out asks for; `None` for other methods.
pub open spec fn core_wish(method: Seq<char>, p: Option<request::Payload>) -> Option<
    Result<crate::app::CommandView, Seq<char>>,
> {
    if method == "device.connect"@ {
        Some(connect_wish(p))
    } else if method == "device.disconnect"@ {
        Some(disconnect_wish(p))
    } else if method == "session.start"@ {
        Some(start_wish(p))
    } else if method == "session.update"@ {
        Some(
            match p {
                Some(request::Payload::SessionUpdate(p)) => update_wish(
                    p,
                    crate::types::uuid_in(p.uuid@),
                ),
                _ => Err("缺少 session.update 参数"@),
            },
        )
    } else if method == "session.retry"@ {
        Some(
            match p {
                Some(request::Payload::SessionRetry(p)) => retry_wish(
                    p.uuid@,
                    crate::types::uuid_in(p.uuid@),
                ),
                _ => Err("缺少 session.retry 参数"@),
            },
        )
    } else if method == "app.list"@ {
        Some(
            match p {
                Some(request::Payload::AppListParams(p)) => app_list_wish(
                    p.force,
                    crate::types::uuid_in(p.uuid@),
                ),
                _ => Err("缺少 app.list 参数"@),
            },
        )
    } else if method == "app.open"@ {
        Some(
            match p {
                Some(request::Payload::AppOpenParams(p)) => app_open_wish(
                    p.package_name@,
                    crate::types::uuid_in(p.uuid@),
                ),
                _ => Err("缺少 app.open 参数"@),
            },
        )
    } else {
        None
    }
}

/// `device.connect`: the core shall connect to an address.
pub fn device_connect(req: &Request) -> (r: Result<Command, Response>)
    ensures
        meets(r, req.id, connect_wish(req.params)),
{
    match &req.params {
        Some(request::Payload::DeviceConnect(p)) => {
            if p.serial.as_str().is_empty() {
                Err(fail(req.id, "缺少 serial 参数"))
            } else {
                Ok(Command::Connect(copy_text(&p.serial)))
            }
        },
        _ => Err(fail(req.id, "缺少 device.connect 参数")),
    }
}

/// `device.disconnect`: the core shall end a session.
pub fn device_disconnect(req: &Request) -> (r: Result<Command, Response>)
    ensures
        meets(r, req.id, disconnect_wish(req.params)),
{
    match &req.params {
        Some(request::Payload::DeviceDisconnect(p)) => {
            if p.serial.as_str().is_empty() {
                Err(fail(req.id, "缺少 serial 参数"))
            } else {
                Ok(Command::Disconnect(copy_text(&p.serial)))
            }
        },
        _ => Err(fail(req.id, "缺少 device.disconnect 参数")),
    }
}

/// `session.start`: the core shall begin a session.
pub fn session_start(req: &Request) -> (r: Result<Command, Response>)
    ensures
        meets(r, req.id, start_wish(req.params)),
{
    match &req.params {
        Some(request::Payload::SessionStart(p)) => {
            if p.serial.as_str().is_empty() {
                Err(fail(req.id, "缺少 serial 参数"))
            } else {
                Ok(Command::StartSession(copy_text(&p.serial)))
            }
        },
        _ => Err(fail(req.id, "缺少 session.start 参数")),
    }
}

/// The number of the device that an update is for, taken as an argument: what is then done.
pub fn update_command(id: u64, p: &request::SessionUpdate, uuid: Option<u128>) -> (r: Result<
    Command,
    Response,
>)
    ensures
        meets(r, id, update_wish(*p, uuid)),
{
    let clipboard_sync: bool = match p.clipboard_sync {
        Some(b) => b,
        None => true,
    };
    let notification_sync: bool = match p.notification_sync {
        Some(b) => b,
        None => true,
    };
    let audio_sync: bool = match p.audio_sync {
        Some(b) => b,
        None => false,
    };
    let volume: u16 = match p.volume {
        Some(v) => if v < 100 {
            v as u16
        } else {
            100
        },
        None => 80,
    };
    if p.uuid.as_str().is_empty() {
        return Err(fail(id, "缺少 uuid 参数"));
    }
    match uuid {
        Some(uuid) => Ok(
            Command::UpdateConfig { uuid, clipboard_sync, notification_sync, audio_sync, volume },
        ),
        None => Err(fail(id, "无效 uuid 格式")),
    }
}

/// `session.update`: the user has chosen something else for a device.
pub fn session_update(req: &Request) -> (r: Result<Command, Response>)
    ensures
        meets(
            r,
            req.id,
            match req.params {
                Some(request::Payload::SessionUpdate(p)) => update_wish(p, crate::types::uuid_in(p.uuid@)),
                _ => Err("缺少 session.update 参数"@),
            },
        ),
{
    match &req.params {
        Some(request::Payload::SessionUpdate(p)) => {
            let uuid = read_uuid(p.uuid.as_str());
            update_command(req.id, p, uuid)
        },
        _ => Err(fail(req.id, "缺少 session.update 参数")),
    }
}

/// The number of the device whose session is to be tried again, taken as an argument.
pub fn retry_command(id: u64, given: &str, uuid: Option<u128>) -> (r: Result<Command, Response>)
    ensures
        meets(r, id, retry_wish(given@, uuid)),
{
    if given.is_empty() {
        return Err(fail(id, "缺少 uuid 参数"));
    }
    match uuid {
        Some(uuid) => Ok(Command::Retry(uuid)),
        None => Err(fail(id, "无效 uuid 格式")),
    }
}

/// `session.retry`: a session that has failed is to be tried again.
pub fn session_retry(req: &Request) -> (r: Result<Command, Response>)
    ensures
        meets(
            r,
            req.id,
            match req.params {
                Some(request::Payload::SessionRetry(p)) => retry_wish(p.uuid@, crate::types::uuid_in(p.uuid@)),
                _ => Err("缺少 session.retry 参数"@),
            },
        ),
{
    match &req.params {
        Some(request::Payload::SessionRetry(p)) => {
            let uuid = read_uuid(p.uuid.as_str());
            retry_command(req.id, p.uuid.as_str(), uuid)
        },
        _ => Err(fail(req.id, "缺少 session.retry 参数")),
    }
}

/// The number of the device whose applications are to be listed, taken as an argument.
pub fn app_list_command(id: u64, force: bool, uuid: Option<u128>) -> (r: Result<Command, Response>)
    ensures
        meets(r, id, app_list_wish(force, uuid)),
{
    match uuid {
        Some(uuid) => Ok(Command::ListApps { uuid, force }),
        None => Err(fail(id, "无效 uuid 格式")),
    }
}

/// `app.list`: the applications of a device are to be listed.
pub fn app_list(req: &Request) -> (r: Result<Command, Response>)
    ensures
        meets(
            r,
            req.id,
            match req.params {
                Some(request::Payload::AppListParams(p)) => app_list_wish(p.force, crate::types::uuid_in(p.uuid@)),
                _ => Err("缺少 app.list 参数"@),
            },
        ),
{
    match &req.params {
        Some(request::Payload::AppListParams(p)) => {
            let uuid = read_uuid(p.uuid.as_str());
            app_list_command(req.id, p.force, uuid)
        },
        _ => Err(fail(req.id, "缺少 app.list 参数")),
    }
}

/// What came of asking the core for a device's applications.
pub enum AppListReply {
    /// The core could not be asked, or ended before it answered.
    CoreGone,
    TimedOut,
    /// The core could not list them, for this reason.
    Failed(String),
    Apps { apps: Vec<AppInfo>, fusion_supported: bool },
}

/// What the daemon answers once the core has.
pub fn app_list_reply(id: u64, reply: AppListReply) -> (r: Response)
    ensures
        match reply {
            AppListReply::CoreGone => is_error(r, id, "core 正在关闭"@),
            AppListReply::TimedOut => is_error(r, id, "应用枚举超时"@),
            AppListReply::Failed(m) => is_error(r, id, m@),
            AppListReply::Apps { apps, fusion_supported } => {
                &&& r.id == id
                &&& r.error is None
                &&& r.result matches Some(response::Payload::AppList(l))
                &&& l.fusion_supported == fusion_supported
                &&& super::proto::tells_apps(l.apps@, crate::apps::app_views(apps@))
            },
        },
{
    match reply {
        AppListReply::CoreGone => fail(id, "core 正在关闭"),
        AppListReply::TimedOut => fail(id, "应用枚举超时"),
        AppListReply::Failed(m) => fail(id, m.as_str()),
        AppListReply::Apps { apps, fusion_supported } => {
            let apps = super::proto::tell_apps(apps.as_slice());
            make_result(
                id,
                response::Payload::AppList(response::AppList { apps, fusion_supported }),
            )
        },
    }
}

/// The number of the device whose application is to be shown, taken as an argument.
pub fn app_open_command(id: u64, package_name: &String, uuid: Option<u128>) -> (r: Result<
    Command,
    Response,
>)
    ensures
        meets(r, id, app_open_wish(package_name@, uuid)),
{
    match uuid {
        Some(uuid) => {
            if package_name.as_str().is_empty() {
                Err(fail(id, "缺少 package_name 参数"))
            } else {
                Ok(Command::OpenApp { uuid, package_name: copy_text(package_name) })
            }
        },
        None => Err(fail(id, "无效 uuid 格式")),
    }
}

/// `app.open`: an application of a device is to be shown in a window.
pub fn app_open(req: &Request) -> (r: Result<Command, Response>)
    ensures
        meets(
            r,
            req.id,
            match req.params {
                Some(request::Payload::AppOpenParams(p)) => app_open_wish(p.package_name@, crate::types::uuid_in(p.uuid@)),
                _ => Err("缺少 app.open 参数"@),
            },
        ),
{
    match &req.params {
        Some(request::Payload::AppOpenParams(p)) => {
            let uuid = read_uuid(p.uuid.as_str());
            app_open_command(req.id, &p.package_name, uuid)
        },
        _ => Err(fail(req.id, "缺少 app.open 参数")),
    }
}

/// What came of asking the core for a window.
pub enum AppOpenReply {
    /// The core could not be asked, or ended before it answered.
    CoreGone,
    TimedOut,
    /// The core could not open it, for this reason.
    Failed(String),
    Opened { window_id: u64, addr: String },
}

/// What the daemon answers once the core has.
pub fn app_open_reply(id: u64, reply: AppOpenReply) -> (r: Response)
    ensures
        match reply {
            AppOpenReply::CoreGone => is_error(r, id, "core 正在关闭"@),
            AppOpenReply::TimedOut => is_error(r, id, "打开应用超时"@),
            AppOpenReply::Failed(m) => is_error(r, id, m@),
            AppOpenReply::Opened { window_id, addr } => is_result(
                r,
                id,
                response::Payload::AppOpen(response::AppOpen { window_id, addr }),
            ),
        },
{
    match reply {
        AppOpenReply::CoreGone => fail(id, "core 正在关闭"),
        AppOpenReply::TimedOut => fail(id, "打开应用超时"),
        AppOpenReply::Failed(m) => fail(id, m.as_str()),
        AppOpenReply::Opened { window_id, addr } => make_result(
            id,
            response::Payload::AppOpen(response::AppOpen { window_id, addr }),
        ),
    }
}

/// `clipboard.get`: what the desktop's clipboard holds; nothing where it cannot be read.
pub fn clipboard_get(req: &Request, text: Option<String>) -> (r: Response)
    ensures
        r.id == req.id,
        r.error is None,
        r.result matches Some(response::Payload::ClipboardGet(c)) && c.text@ == match text {
            Some(t) => t@,
            None => Seq::empty(),
        },
{
    let text = match text {
        Some(t) => t,
        None => {
            let s = String::new();
            assert(s@ =~= Seq::empty());
            s
        },
    };
    make_result(req.id, response::Payload::ClipboardGet(response::ClipboardGet { text }))
}

/// `pairing.info`: what a phone needs to pair.
pub fn pairing_info(req: &Request, info: &WirelessPairing) -> (r: Response)
    ensures
        r.id == req.id,
        r.error is None,
        r.result matches Some(response::Payload::PairingInfo(p)) && p.dns_id@ == info.dns_id@
            && p.psk@ == info.psk@ && p.wifi_string@ == crate::wireless_pair::pairing_text(
            info.dns_id@,
            info.psk@,
        ),
{
    make_result(
        req.id,
        response::Payload::PairingInfo(
            response::PairingInfo {
                dns_id: copy_text(&info.dns_id),
                psk: copy_text(&info.psk),
                wifi_string: info.get_info(),
            },
        ),
    )
}

/// `p` tells of the settings.
pub open spec fn tells_settings(
    p: response::Settings,
    c: crate::settings::Config,
    s: AutostartState,
) -> bool {
    &&& p.autostart_enabled == s.enabled
    &&& p.autostart_supported == s.supported
    &&& p.video_bit_rate == c.video_bit_rate
    &&& p.video_max_size == c.video_max_size
    &&& p.video_max_fps == c.video_max_fps
    &&& p.audio_bit_rate == c.audio_bit_rate
    &&& p.audio_codec@ == c.audio_codec
    &&& p.icon_theme@ == c.icon_theme
}

/// `r` answers request `id` with the settings.
pub open spec fn is_settings(
    r: Response,
    id: u64,
    c: crate::settings::Config,
    s: AutostartState,
) -> bool {
    r.id == id && r.error is None && (r.result matches Some(response::Payload::Settings(p))
        && tells_settings(p, c, s))
}

pub fn settings_payload(config: &AppConfig, state: AutostartState) -> (r: response::Settings)
    ensures
        tells_settings(r, config@, state),
{
    response::Settings {
        autostart_enabled: state.enabled,
        autostart_supported: state.supported,
        video_bit_rate: config.video_bit_rate,
        video_max_size: config.video_max_size,
        video_max_fps: config.video_max_fps,
        audio_bit_rate: config.audio_bit_rate,
        audio_codec: copy_text(&config.audio_codec),
        icon_theme: copy_text(&config.icon_theme),
    }
}

/// `settings.get`: the settings.
pub fn settings_get(req: &Request, config: &AppConfig, state: AutostartState) -> (r: Response)
    ensures
        is_settings(r, req.id, config@, state),
{
    make_result(req.id, response::Payload::Settings(settings_payload(config, state)))
}

/// `settings.set_autostart`: whether the daemon shall start when the user logs in.
pub fn settings_set_autostart(req: &Request) -> (r: Result<bool, Response>)
    ensures
        match req.params {
            Some(request::Payload::SetAutostart(p)) => r == Ok::<bool, Response>(p.enabled),
            _ => r matches Err(e) && is_error(e, req.id, "缺少 settings.set_autostart 参数"@),
        },
{
    match &req.params {
        Some(request::Payload::SetAutostart(p)) => Ok(p.enabled),
        _ => Err(fail(req.id, "缺少 settings.set_autostart 参数")),
    }
}

/// What the daemon answers once it has tried to set that: `outcome` is what is then told of
/// it, or why it failed; `config` is what the configuration file then holds.
pub fn autostart_reply(
    id: u64,
    outcome: Result<AutostartState, String>,
    config: &AppConfig,
) -> (r: Response)
    ensures
        match outcome {
            Ok(state) => is_settings(r, id, config@, state),
            Err(m) => is_error(r, id, "设置自启动失败: "@ + m@),
        },
{
    match outcome {
        Ok(state) => make_result(id, response::Payload::Settings(settings_payload(config, state))),
        Err(m) => fail(id, cat2("设置自启动失败: ", m.as_str()).as_str()),
    }
}

/// The codecs that a phone can encode audio with.
pub open spec fn is_audio_codec(name: Seq<char>) -> bool {
    name == "opus"@ || name == "aac"@ || name == "flac"@ || name == "raw"@
}

/// `v` where it is given, else `old`.
pub open spec fn given_or(v: Option<u32>, old: u32) -> u32 {
    match v {
        Some(x) => x,
        None => old,
    }
}

/// The configuration with the parameters that were given.
pub open spec fn with_params(
    c: crate::settings::Config,
    p: request::SetScrcpyParams,
) -> crate::settings::Config {
    crate::settings::Config {
        video_bit_rate: given_or(p.video_bit_rate, c.video_bit_rate),
        video_max_size: given_or(p.video_max_size, c.video_max_size),
        video_max_fps: given_or(p.video_max_fps, c.video_max_fps),
        audio_bit_rate: given_or(p.audio_bit_rate, c.audio_bit_rate),
        audio_codec: match p.audio_codec {
            Some(v) => v@,
            None => c.audio_codec,
        },
        ..c
    }
}

/// Asking for the same encoding twice is asking for it once.
pub proof fn law_params_are_idempotent(c: crate::settings::Config, p: request::SetScrcpyParams)
    ensures
        with_params(with_params(c, p), p) == with_params(c, p),
{
}

/// `settings.set_scrcpy_params`: how phones shall encode. The result is the configuration
/// to write; after that all sessions are to be begun anew.
pub fn settings_set_scrcpy_params(req: &Request, config: AppConfig) -> (r: Result<
    AppConfig,
    Response,
>)
    ensures
        match req.params {
            Some(request::Payload::SetScrcpyParams(p)) => match p.audio_codec {
                Some(v) if !is_audio_codec(v@) => r matches Err(e) && is_error(
                    e,
                    req.id,
                    "不支持的音频编码器: "@ + v@,
                ),
                _ => r matches Ok(c) && c@ == with_params(config@, p),
            },
            _ => r matches Err(e) && is_error(
                e,
                req.id,
                "缺少 settings.set_scrcpy_params 参数"@,
            ),
        },
{
    let mut config = config;
    let ghost before = config@;
    match &req.params {
        Some(request::Payload::SetScrcpyParams(p)) => {
            if let Some(v) = p.video_bit_rate {
                config.video_bit_rate = v;
            }
            if let Some(v) = p.video_max_size {
                config.video_max_size = v;
            }
            if let Some(v) = p.video_max_fps {
                config.video_max_fps = v;
            }
            if let Some(v) = p.audio_bit_rate {
                config.audio_bit_rate = v;
            }
            match &p.audio_codec {
                Some(v) => {
                    if same(v.as_str(), "opus") || same(v.as_str(), "aac") || same(
                        v.as_str(),
                        "flac",
                    ) || same(v.as_str(), "raw") {
                        config.audio_codec = copy_text(v);
                    } else {
                        return Err(
                            fail(
                                req.id,
                                cat2("不支持的音频编码器: ", v.as_str()).as_str(),
                            ),
                        );
                    }
                },
                None => {},
            }
            assert(config@ =~= with_params(before, *p));
            Ok(config)
        },
        _ => Err(fail(req.id, "缺少 settings.set_scrcpy_params 参数")),
    }
}

/// What the daemon answers once it has tried to write the configuration and then to have
/// all sessions begun anew.
pub fn scrcpy_params_reply(
    id: u64,
    written: Result<(), String>,
    sent: bool,
    config: &AppConfig,
    state: AutostartState,
) -> (r: Response)
    ensures
        match written {
            Err(m) => is_error(r, id, "保存 scrcpy 参数失败: "@ + m@),
            Ok(_) => if sent {
                is_settings(r, id, config@, state)
            } else {
                is_error(r, id, "core 正在关闭"@)
            },
        },
{
    match written {
        Err(m) => fail(id, cat2("保存 scrcpy 参数失败: ", m.as_str()).as_str()),
        Ok(_) => {
            if !sent {
                return fail(id, "core 正在关闭");
            }
            make_result(id, response::Payload::Settings(settings_payload(config, state)))
        },
    }
}

/// `settings.set_icon_theme`: how icons shall look, dark or light. The result is the
/// configuration to write.
pub fn settings_set_icon_theme(req: &Request, config: AppConfig) -> (r: Result<AppConfig, Response>)
    ensures
        match req.params {
            Some(request::Payload::SetIconTheme(p)) => if p.icon_theme@ == "dark"@ || p.icon_theme@
                == "light"@ {
                r matches Ok(c) && c@ == (crate::settings::Config {
                    icon_theme: p.icon_theme@,
                    ..config@
                })
            } else {
                r matches Err(e) && is_error(
                    e,
                    req.id,
                    "不支持的图标主题: "@ + p.icon_theme@,
                )
            },
            _ => r matches Err(e) && is_error(e, req.id, "缺少 settings.set_icon_theme 参数"@),
        },
{
    let mut config = config;
    match &req.params {
        Some(request::Payload::SetIconTheme(p)) => {
            if !same(p.icon_theme.as_str(), "dark") && !same(p.icon_theme.as_str(), "light") {
                return Err(
                    fail(
                        req.id,
                        cat2("不支持的图标主题: ", p.icon_theme.as_str()).as_str(),
                    ),
                );
            }
            config.icon_theme = copy_text(&p.icon_theme);
            Ok(config)
        },
        _ => Err(fail(req.id, "缺少 settings.set_icon_theme 参数")),
    }
}

/// What the daemon answers once it has tried to write the configuration.
pub fn icon_theme_reply(
    id: u64,
    written: Result<(), String>,
    config: &AppConfig,
    state: AutostartState,
) -> (r: Response)
    ensures
        match written {
            Err(m) => is_error(r, id, "保存图标主题失败: "@ + m@),
            Ok(_) => is_settings(r, id, config@, state),
        },
{
    match written {
        Err(m) => fail(id, cat2("保存图标主题失败: ", m.as_str()).as_str()),
        Ok(_) => make_result(id, response::Payload::Settings(settings_payload(config, state))),
    }
}

} // verus!
