//! The daemon's side: which method does what, and what is told unasked.
use super::handlers;
use super::proto::{event, ClipboardData, DeviceListData, Event, NotificationData};
use super::proto::{Request, Response, SessionListData};
use super::types::{SessionSummary, FRAME_TYPE_REQUEST};
use crate::app::Command;
use crate::device_map::DeviceMap;
use crate::notification::NotifInfo;
use crate::session::runner::ClipInput;
use crate::settings::AppConfig;
use crate::text::{cat2, same};
use crate::types::Device;
use crate::wireless_pair::WirelessPairing;
use vstd::prelude::*;

verus! {

/// What the daemon is to do with a request.
pub enum Routed {
    /// Answer so.
    Reply(Response),
    /// Hand the command to the core, and answer whether that worked.
    Send(Command),
    /// Hand the command to the core, and answer with the list that it gives.
    ListApps(Command),
    /// Hand the command to the core, and answer with the window that it opens.
    OpenApp(Command),
    /// Read the desktop's clipboard, and answer with it.
    ReadClipboard,
    /// Answer with the settings.
    ReadSettings,
    /// Have the daemon started when the user logs in, or not.
    SetAutostart(bool),
    /// Write this configuration, and have all sessions begun anew.
    WriteParams(AppConfig),
    /// Write this configuration.
    WriteTheme(AppConfig),
}

/// `r` is what the method asks for, where the core carries it out.
pub open spec fn asks_core(r: Routed, req: Request) -> bool {
    let wish = handlers::core_wish(req.method@, req.params)->Some_0;
    match (r, wish) {
        (Routed::Reply(e), Err(m)) => handlers::is_error(e, req.id, m),
        (Routed::Send(c), Ok(v)) => c@ == v && !(v is ListApps) && !(v is OpenApp),
        (Routed::ListApps(c), Ok(v)) => c@ == v && v is ListApps,
        (Routed::OpenApp(c), Ok(v)) => c@ == v && v is OpenApp,
        _ => false,
    }
}

/// `r` is what is to be done with a request.
pub open spec fn routes(
    r: Routed,
    req: Request,
    merged: Seq<crate::types::DeviceView>,
    adb: Seq<crate::types::DeviceView>,
    info: WirelessPairing,
    config: crate::settings::Config,
) -> bool {
    let m = req.method@;
    if handlers::core_wish(m, req.params) is Some {
        asks_core(r, req)
    } else if m == "device.list"@ {
        &&& r matches Routed::Reply(x)
        &&& x.id == req.id && x.error is None
        &&& x.result matches Some(super::proto::response::Payload::DeviceList(l))
        &&& super::proto::tells_devices(l.devices@, merged)
    } else if m == "device.adb_list"@ {
        &&& r matches Routed::Reply(x)
        &&& x.id == req.id && x.error is None
        &&& x.result matches Some(super::proto::response::Payload::AdbList(l))
        &&& super::proto::tells_devices(l.devices@, adb)
    } else if m == "clipboard.get"@ {
        r is ReadClipboard
    } else if m == "pairing.info"@ {
        &&& r matches Routed::Reply(x)
        &&& x.id == req.id && x.error is None
        &&& x.result matches Some(super::proto::response::Payload::PairingInfo(p))
        &&& p.dns_id@ == info.dns_id@ && p.psk@ == info.psk@
        &&& p.wifi_string@ == crate::wireless_pair::pairing_text(info.dns_id@, info.psk@)
    } else if m == "settings.get"@ {
        r is ReadSettings
    } else if m == "settings.set_autostart"@ {
        match req.params {
            Some(super::proto::request::Payload::SetAutostart(p)) => r == Routed::SetAutostart(
                p.enabled,
            ),
            _ => r matches Routed::Reply(e) && handlers::is_error(
                e,
                req.id,
                "缺少 settings.set_autostart 参数"@,
            ),
        }
    } else if m == "settings.set_scrcpy_params"@ {
        match req.params {
            Some(super::proto::request::Payload::SetScrcpyParams(p)) => match p.audio_codec {
                Some(v) if !handlers::is_audio_codec(v@) => r matches Routed::Reply(e)
                    && handlers::is_error(e, req.id, "不支持的音频编码器: "@ + v@),
                _ => r matches Routed::WriteParams(c) && c@ == handlers::with_params(config, p),
            },
            _ => r matches Routed::Reply(e) && handlers::is_error(
                e,
                req.id,
                "缺少 settings.set_scrcpy_params 参数"@,
            ),
        }
    } else if m == "settings.set_icon_theme"@ {
        match req.params {
            Some(super::proto::request::Payload::SetIconTheme(p)) => if p.icon_theme@ == "dark"@
                || p.icon_theme@ == "light"@ {
                r matches Routed::WriteTheme(c) && c@ == (crate::settings::Config {
                    icon_theme: p.icon_theme@,
                    ..config
                })
            } else {
                r matches Routed::Reply(e) && handlers::is_error(
                    e,
                    req.id,
                    "不支持的图标主题: "@ + p.icon_theme@,
                )
            },
            _ => r matches Routed::Reply(e) && handlers::is_error(
                e,
                req.id,
                "缺少 settings.set_icon_theme 参数"@,
            ),
        }
    } else {
        r matches Routed::Reply(e) && handlers::is_error(e, req.id, "未知方法: "@ + m)
    }
}

fn send_or_reply(r: Result<Command, Response>) -> (x: Routed)
    ensures
        match r {
            Ok(c) => x == Routed::Send(c),
            Err(e) => x == Routed::Reply(e),
        },
{
    match r {
        Ok(c) => Routed::Send(c),
        Err(e) => Routed::Reply(e),
    }
}

/// What the daemon is to do with a request: `merged` are the devices, `adb` those that adb
/// lists, `info` is what a phone needs to pair, `config` what the configuration file holds.
pub fn dispatch_request(
    req: &Request,
    merged: &[Device],
    adb: &DeviceMap,
    info: &WirelessPairing,
    config: AppConfig,
) -> (r: Routed)
    ensures
        routes(r, *req, crate::types::device_views(merged@), adb@, *info, config@),
{
    let m = req.method.as_str();
    if same(m, "device.connect") {
        send_or_reply(handlers::device_connect(req))
    } else if same(m, "device.disconnect") {
        send_or_reply(handlers::device_disconnect(req))
    } else if same(m, "session.start") {
        send_or_reply(handlers::session_start(req))
    } else if same(m, "session.update") {
        send_or_reply(handlers::session_update(req))
    } else if same(m, "session.retry") {
        send_or_reply(handlers::session_retry(req))
    } else if same(m, "app.list") {
        match handlers::app_list(req) {
            Ok(c) => Routed::ListApps(c),
            Err(e) => Routed::Reply(e),
        }
    } else if same(m, "app.open") {
        match handlers::app_open(req) {
            Ok(c) => Routed::OpenApp(c),
            Err(e) => Routed::Reply(e),
        }
    } else if same(m, "device.list") {
        Routed::Reply(handlers::device_list(req, merged))
    } else if same(m, "device.adb_list") {
        Routed::Reply(handlers::device_adb_list(req, adb))
    } else if same(m, "clipboard.get") {
        Routed::ReadClipboard
    } else if same(m, "pairing.info") {
        Routed::Reply(handlers::pairing_info(req, info))
    } else if same(m, "settings.get") {
        Routed::ReadSettings
    } else if same(m, "settings.set_autostart") {
        match handlers::settings_set_autostart(req) {
            Ok(enabled) => Routed::SetAutostart(enabled),
            Err(e) => Routed::Reply(e),
        }
    } else if same(m, "settings.set_scrcpy_params") {
        match handlers::settings_set_scrcpy_params(req, config) {
            Ok(c) => Routed::WriteParams(c),
            Err(e) => Routed::Reply(e),
        }
    } else if same(m, "settings.set_icon_theme") {
        match handlers::settings_set_icon_theme(req, config) {
            Ok(c) => Routed::WriteTheme(c),
            Err(e) => Routed::Reply(e),
        }
    } else {
        let message = cat2("未知方法: ", m);
        Routed::Reply(handlers::make_error(req.id, handlers::ERROR_CODE, message.as_str()))
    }
}

/// What is done with a frame.
#[derive(Debug, Clone, Copy, PartialEq, Eq, Structural)]
pub enum FrameStep {
    /// It holds a request, which is to be decoded and answered. One that does not decode
    /// ends the connection.
    Request,
    /// It is passed over.
    Ignore,
}

/// What is done with a frame of this type.
pub fn on_frame(frame_type: u8) -> (r: FrameStep)
    ensures
        r == if frame_type == FRAME_TYPE_REQUEST {
            FrameStep::Request
        } else {
            FrameStep::Ignore
        },
{
    if frame_type == FRAME_TYPE_REQUEST {
        FrameStep::Request
    } else {
        FrameStep::Ignore
    }
}

/// The devices have changed.
pub fn device_event(devices: &[Device]) -> (r: Event)
    ensures
        r.data matches Some(event::Payload::DeviceUpdated(l)) && super::proto::tells_devices(
            l.devices@,
            crate::types::device_views(devices@),
        ),
{
    let devices = super::proto::tell_devices(devices);
    Event { data: Some(event::Payload::DeviceUpdated(DeviceListData { devices })) }
}

/// What adb lists has changed.
pub fn adb_event(adb: &DeviceMap) -> (r: Event)
    ensures
        r.data matches Some(event::Payload::AdbUpdated(l)) && super::proto::tells_devices(
            l.devices@,
            adb@,
        ),
{
    let devices = handlers::tell_listed(adb);
    Event { data: Some(event::Payload::AdbUpdated(DeviceListData { devices })) }
}

/// The sessions have changed.
pub fn session_event(sessions: &[SessionSummary]) -> (r: Event)
    ensures
        r.data matches Some(event::Payload::SessionUpdated(l)) && super::proto::tells_sessions(
            l.sessions@,
            super::types::summary_views(sessions@),
        ),
{
    let sessions = super::proto::tell_sessions(sessions);
    Event { data: Some(event::Payload::SessionUpdated(SessionListData { sessions })) }
}

/// What is done with a connection.
pub enum ConnectionStep {
    Tell(Event),
    Nothing,
    /// The connection is over.
    End,
}

/// Something came from the desktop's clipboard.
pub fn on_clip(input: ClipInput) -> (r: ConnectionStep)
    ensures
        match input {
            ClipInput::Text(t) => {
                &&& r matches ConnectionStep::Tell(e)
                &&& e.data matches Some(event::Payload::ClipboardChanged(c))
                &&& c.text == t
                &&& c.serial@.len() == 0
            },
            ClipInput::Lagged(_) => r is Nothing,
            ClipInput::Closed => r is End,
        },
{
    match input {
        ClipInput::Text(text) => ConnectionStep::Tell(
            Event {
                data: Some(
                    event::Payload::ClipboardChanged(
                        ClipboardData { text, serial: String::new() },
                    ),
                ),
            },
        ),
        ClipInput::Lagged(_) => ConnectionStep::Nothing,
        ClipInput::Closed => ConnectionStep::End,
    }
}

/// `o`, or nothing.
pub open spec fn text_or_empty(o: Option<Seq<char>>) -> Seq<char> {
    match o {
        Some(s) => s,
        None => Seq::empty(),
    }
}

pub(crate) fn or_empty(o: Option<String>) -> (r: String)
    ensures
        r@ == text_or_empty(crate::text::string_view(o)),
{
    match o {
        Some(s) => s,
        None => {
            let s = String::new();
            assert(s@ =~= Seq::empty());
            s
        },
    }
}

/// A device has a notification.
pub fn notification_event(serial: &str, notif: NotifInfo) -> (r: Event)
    ensures
        r.data matches Some(event::Payload::Notification(n)) && n.serial@ == serial@ && n.title@
            == text_or_empty(notif@.title) && n.text@ == text_or_empty(notif@.body) && n.app@
            == notif@.package,
{
    Event {
        data: Some(
            event::Payload::Notification(
                NotificationData {
                    serial: serial.to_owned(),
                    title: or_empty(notif.title),
                    text: or_empty(notif.body),
                    app: notif.package,
                },
            ),
        ),
    }
}

/// Every request is answered under its own number: with a result, with an error, or with
/// neither, never with both. This holds of what is answered at once.
pub proof fn law_answer_has_the_number_of_its_request(
    r: Routed,
    req: Request,
    merged: Seq<crate::types::DeviceView>,
    adb: Seq<crate::types::DeviceView>,
    info: WirelessPairing,
    config: crate::settings::Config,
)
    requires
        routes(r, req, merged, adb, info, config),
    ensures
        r matches Routed::Reply(x) ==> x.id == req.id && (x.result is None || x.error is None),
{
}

/// A method that is not known is answered with an error that names it, and nothing is done.
pub proof fn law_unknown_method_does_nothing(
    r: Routed,
    req: Request,
    merged: Seq<crate::types::DeviceView>,
    adb: Seq<crate::types::DeviceView>,
    info: WirelessPairing,
    config: crate::settings::Config,
)
    requires
        routes(r, req, merged, adb, info, config),
        !is_method(req.method@),
    ensures
        r matches Routed::Reply(e) && handlers::is_error(e, req.id, "未知方法: "@ + req.method@),
{
}

/// The methods that the daemon knows.
pub open spec fn is_method(m: Seq<char>) -> bool {
    ||| m == "device.list"@
    ||| m == "device.adb_list"@
    ||| m == "device.connect"@
    ||| m == "device.disconnect"@
    ||| m == "clipboard.get"@
    ||| m == "pairing.info"@
    ||| m == "session.update"@
    ||| m == "session.retry"@
    ||| m == "session.start"@
    ||| m == "app.list"@
    ||| m == "app.open"@
    ||| m == "settings.get"@
    ||| m == "settings.set_autostart"@
    ||| m == "settings.set_scrcpy_params"@
    ||| m == "settings.set_icon_theme"@
}

} // verus!
