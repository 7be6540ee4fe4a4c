//! What a window that asks the daemon for something can rely on.
use super::handlers;
use super::proto::{request, response, Device, Request};
use super::server::{routes, Routed};
use super::server_proto::{self, GivenView, JsonResult, JsonRouted};
use crate::app::CommandView;
use crate::settings::Config;
use crate::types::DeviceView;
use crate::wireless_pair::WirelessPairing;
use vstd::prelude::*;

verus! {

/// Methods that differ are told apart.
proof fn lemma_methods_differ()
    ensures
        "device.list"@.len() == 11,
        "device.adb_list"@.len() == 15,
        "device.connect"@.len() == 14 && "device.connect"@[0] == 'd',
        "device.disconnect"@.len() == 17,
        "clipboard.get"@.len() == 13 && "clipboard.get"@[0] == 'c',
        "pairing.info"@.len() == 12 && "pairing.info"@[0] == 'p',
        "session.update"@.len() == 14 && "session.update"@[0] == 's',
        "session.retry"@.len() == 13 && "session.retry"@[0] == 's' && "session.retry"@[8] == 'r',
        "session.start"@.len() == 13 && "session.start"@[0] == 's' && "session.start"@[8] == 's',
        "app.list"@.len() == 8 && "app.list"@[4] == 'l',
        "app.open"@.len() == 8 && "app.open"@[4] == 'o',
        "settings.get"@.len() == 12 && "settings.get"@[0] == 's',
        "settings.set_autostart"@.len() == 22,
        "settings.set_scrcpy_params"@.len() == 26,
        "settings.set_icon_theme"@.len() == 23,
{
    reveal_strlit("device.list");
    reveal_strlit("device.adb_list");
    reveal_strlit("device.connect");
    reveal_strlit("device.disconnect");
    reveal_strlit("clipboard.get");
    reveal_strlit("pairing.info");
    reveal_strlit("session.update");
    reveal_strlit("session.retry");
    reveal_strlit("session.start");
    reveal_strlit("app.list");
    reveal_strlit("app.open");
    reveal_strlit("settings.get");
    reveal_strlit("settings.set_autostart");
    reveal_strlit("settings.set_scrcpy_params");
    reveal_strlit("settings.set_icon_theme");
}

/// A request that names an address reaches the core with that address, and asks there for what
/// the method says. One that names none is refused, and the core hears nothing of it.
pub proof fn law_address_reaches_the_core(
    r: Routed,
    req: Request,
    merged: Seq<DeviceView>,
    adb: Seq<DeviceView>,
    info: WirelessPairing,
    config: Config,
)
    requires
        routes(r, req, merged, adb, info, config),
    ensures
        req.method@ == "device.connect"@ ==> match req.params {
            Some(request::Payload::DeviceConnect(p)) if p.serial@.len() > 0 => r is Send
                && r->Send_0@ == CommandView::Connect(p.serial@),
            _ => r is Reply && r->Reply_0.id == req.id && r->Reply_0.error is Some,
        },
        req.method@ == "device.disconnect"@ ==> match req.params {
            Some(request::Payload::DeviceDisconnect(p)) if p.serial@.len() > 0 => r is Send
                && r->Send_0@ == CommandView::Disconnect(p.serial@),
            _ => r is Reply && r->Reply_0.id == req.id && r->Reply_0.error is Some,
        },
        req.method@ == "session.start"@ ==> match req.params {
            Some(request::Payload::SessionStart(p)) if p.serial@.len() > 0 => r is Send
                && r->Send_0@ == CommandView::StartSession(p.serial@),
            _ => r is Reply && r->Reply_0.id == req.id && r->Reply_0.error is Some,
        },
{
    lemma_methods_differ();
}

/// A request that names a device by its number reaches the core with that number, the one that
/// the given text stands for. Where the text stands for none, the request is refused.
pub proof fn law_number_reaches_the_core(
    r: Routed,
    req: Request,
    merged: Seq<DeviceView>,
    adb: Seq<DeviceView>,
    info: WirelessPairing,
    config: Config,
    uuid: u128,
)
    requires
        routes(r, req, merged, adb, info, config),
    ensures
        req.method@ == "session.retry"@ ==> match req.params {
            Some(request::Payload::SessionRetry(p)) if p.uuid@.len() > 0
                && crate::types::uuid_in(p.uuid@) == Some(uuid) => r is Send && r->Send_0@
                == CommandView::Retry(uuid),
            Some(request::Payload::SessionRetry(p)) if crate::types::uuid_in(p.uuid@) is Some
                && p.uuid@.len() > 0 => r is Send,
            _ => r is Reply && r->Reply_0.id == req.id && r->Reply_0.error is Some,
        },
        req.method@ == "app.list"@ ==> match req.params {
            Some(request::Payload::AppListParams(p)) if crate::types::uuid_in(p.uuid@) == Some(
                uuid,
            ) => r is ListApps && r->ListApps_0@ == (CommandView::ListApps {
                uuid,
                force: p.force,
            }),
            Some(request::Payload::AppListParams(p)) if crate::types::uuid_in(
                p.uuid@,
            ) is Some => r is ListApps,
            _ => r is Reply && r->Reply_0.id == req.id && r->Reply_0.error is Some,
        },
        req.method@ == "app.open"@ ==> match req.params {
            Some(request::Payload::AppOpenParams(p)) if crate::types::uuid_in(p.uuid@) == Some(uuid)
                && p.package_name@.len() > 0 => r is OpenApp && r->OpenApp_0@ == (
            CommandView::OpenApp { uuid, package_name: p.package_name@ }),
            Some(request::Payload::AppOpenParams(p)) if crate::types::uuid_in(p.uuid@) is Some
                && p.package_name@.len() > 0 => r is OpenApp,
            _ => r is Reply && r->Reply_0.id == req.id && r->Reply_0.error is Some,
        },
{
    lemma_methods_differ();
}

/// What a window chooses for a session reaches the core as it was chosen. What it leaves open is
/// on for the clipboard and for notifications, off for audio, and 80 for the volume; a volume
/// above 100 is 100.
pub proof fn law_choices_reach_the_core(
    r: Routed,
    req: Request,
    merged: Seq<DeviceView>,
    adb: Seq<DeviceView>,
    info: WirelessPairing,
    config: Config,
    p: request::SessionUpdate,
    uuid: u128,
)
    requires
        routes(r, req, merged, adb, info, config),
        req.method@ == "session.update"@,
        req.params == Some(request::Payload::SessionUpdate(p)),
        p.uuid@.len() > 0,
        crate::types::uuid_in(p.uuid@) == Some(uuid),
    ensures
        r is Send && r->Send_0@ is UpdateConfig,
        r->Send_0@ matches CommandView::UpdateConfig {
            uuid: to,
            clipboard_sync,
            notification_sync,
            audio_sync,
            volume,
        } ==> {
            &&& to == uuid
            &&& clipboard_sync == !(p.clipboard_sync == Some(false))
            &&& notification_sync == !(p.notification_sync == Some(false))
            &&& audio_sync == (p.audio_sync == Some(true))
            &&& volume <= 100
            &&& forall|v: u32| p.volume == Some(v) && v <= 100 ==> volume == v
            &&& forall|v: u32| p.volume == Some(v) && v > 100 ==> volume == 100
            &&& p.volume is None ==> volume == 80
        },
{
    lemma_methods_differ();
}

/// A change of the choices that names no device, or none that can be, is refused.
pub proof fn law_choices_need_a_device(
    r: Routed,
    req: Request,
    merged: Seq<DeviceView>,
    adb: Seq<DeviceView>,
    info: WirelessPairing,
    config: Config,
)
    requires
        routes(r, req, merged, adb, info, config),
        req.method@ == "session.update"@,
        match req.params {
            Some(request::Payload::SessionUpdate(p)) => p.uuid@.len() == 0
                || crate::types::uuid_in(p.uuid@) is None,
            _ => true,
        },
    ensures
        r is Reply,
        r->Reply_0.id == req.id,
        r->Reply_0.error is Some,
        r->Reply_0.result is None,
{
    lemma_methods_differ();
}

/// A window that asks for the devices is told of each of them, in their order, and of no other:
/// of those that are known, or of those that adb lists.
pub proof fn law_devices_are_told(
    r: Routed,
    req: Request,
    merged: Seq<DeviceView>,
    adb: Seq<DeviceView>,
    info: WirelessPairing,
    config: Config,
    told: Seq<Device>,
)
    requires
        routes(r, req, merged, adb, info, config),
        req.method@ == "device.list"@ || req.method@ == "device.adb_list"@,
        r is Reply,
        r->Reply_0.result matches Some(p) && (match p {
            response::Payload::DeviceList(l) => l.devices@ == told,
            response::Payload::AdbList(l) => l.devices@ == told,
            _ => false,
        }),
    ensures
        ({
            let of = if req.method@ == "device.list"@ {
                merged
            } else {
                adb
            };
            &&& told.len() == of.len()
            &&& forall|i: int|
                #![trigger told[i]]
                0 <= i < told.len() ==> told[i].serial@ == of[i].serial && told[i].id@ == of[i].id
                    && told[i].name@ == of[i].name && told[i].uuid@ == crate::types::uuid_text(
                    of[i].uuid,
                ) && told[i].identity is Some && told[i].identity->0@ == of[i].identity
        }),
{
    lemma_methods_differ();
}

/// A window that asks for the devices, for the clipboard, for what a phone needs to pair or for
/// the settings is never refused.
pub proof fn law_questions_are_answered(
    r: Routed,
    req: Request,
    merged: Seq<DeviceView>,
    adb: Seq<DeviceView>,
    info: WirelessPairing,
    config: Config,
)
    requires
        routes(r, req, merged, adb, info, config),
    ensures
        req.method@ == "device.list"@ ==> r is Reply && r->Reply_0.id == req.id
            && r->Reply_0.error is None && r->Reply_0.result is Some && r->Reply_0.result->0 is DeviceList,
        req.method@ == "device.adb_list"@ ==> r is Reply && r->Reply_0.id == req.id
            && r->Reply_0.error is None && r->Reply_0.result is Some && r->Reply_0.result->0 is AdbList,
        req.method@ == "pairing.info"@ ==> r is Reply && r->Reply_0.id == req.id
            && r->Reply_0.error is None && (r->Reply_0.result matches Some(
            response::Payload::PairingInfo(p),
        ) && p.dns_id@ == info.dns_id@ && p.psk@ == info.psk@),
        req.method@ == "clipboard.get"@ ==> r is ReadClipboard,
        req.method@ == "settings.get"@ ==> r is ReadSettings,
{
    lemma_methods_differ();
}

/// How phones shall encode is written as it was asked for, and what was not asked for stays as it
/// was. A window that then asks for the settings is told just that.
pub proof fn law_encoding_is_written_and_told(
    r: Routed,
    req: Request,
    merged: Seq<DeviceView>,
    adb: Seq<DeviceView>,
    info: WirelessPairing,
    config: Config,
    p: request::SetScrcpyParams,
    state: crate::autostart::AutostartState,
    told: response::Settings,
)
    requires
        routes(r, req, merged, adb, info, config),
        req.method@ == "settings.set_scrcpy_params"@,
        req.params == Some(request::Payload::SetScrcpyParams(p)),
        r matches Routed::WriteParams(c) && handlers::tells_settings(told, c@, state),
    ensures
        forall|v: u32| p.video_bit_rate == Some(v) ==> told.video_bit_rate == v,
        forall|v: u32| p.video_max_size == Some(v) ==> told.video_max_size == v,
        forall|v: u32| p.video_max_fps == Some(v) ==> told.video_max_fps == v,
        forall|v: u32| p.audio_bit_rate == Some(v) ==> told.audio_bit_rate == v,
        p.video_bit_rate is None ==> told.video_bit_rate == config.video_bit_rate,
        p.video_max_size is None ==> told.video_max_size == config.video_max_size,
        p.video_max_fps is None ==> told.video_max_fps == config.video_max_fps,
        p.audio_bit_rate is None ==> told.audio_bit_rate == config.audio_bit_rate,
        p.audio_codec is Some ==> told.audio_codec@ == p.audio_codec->0@,
        p.audio_codec is None ==> told.audio_codec@ == config.audio_codec,
        told.icon_theme@ == config.icon_theme,
        told.autostart_enabled == state.enabled,
        told.autostart_supported == state.supported,
        r->WriteParams_0@.autostart_enabled == config.autostart_enabled,
{
    lemma_methods_differ();
}

/// Audio is encoded with Opus, AAC, FLAC or not at all. A codec of another name is refused and
/// nothing is written; each of these is written.
pub proof fn law_only_known_codecs_are_written(
    r: Routed,
    req: Request,
    merged: Seq<DeviceView>,
    adb: Seq<DeviceView>,
    info: WirelessPairing,
    config: Config,
    p: request::SetScrcpyParams,
    codec: String,
)
    requires
        routes(r, req, merged, adb, info, config),
        req.method@ == "settings.set_scrcpy_params"@,
        req.params == Some(request::Payload::SetScrcpyParams(p)),
        p.audio_codec == Some(codec),
    ensures
        r is WriteParams || r is Reply,
        r is WriteParams <==> (codec@ == "opus"@ || codec@ == "aac"@ || codec@ == "flac"@ || codec@
            == "raw"@),
        r is Reply ==> r->Reply_0.id == req.id && r->Reply_0.error is Some,
{
    lemma_methods_differ();
}

/// Icons are dark or light. Another theme is refused; with either of these the theme is all of
/// the configuration that changes.
pub proof fn law_theme_is_written(
    r: Routed,
    req: Request,
    merged: Seq<DeviceView>,
    adb: Seq<DeviceView>,
    info: WirelessPairing,
    config: Config,
    p: request::SetIconTheme,
)
    requires
        routes(r, req, merged, adb, info, config),
        req.method@ == "settings.set_icon_theme"@,
        req.params == Some(request::Payload::SetIconTheme(p)),
    ensures
        r is WriteTheme || r is Reply,
        r is WriteTheme <==> (p.icon_theme@ == "dark"@ || p.icon_theme@ == "light"@),
        r is Reply ==> r->Reply_0.id == req.id && r->Reply_0.error is Some,
        r matches Routed::WriteTheme(c) ==> {
            &&& c@.icon_theme == p.icon_theme@
            &&& c@.autostart_enabled == config.autostart_enabled
            &&& c@.video_bit_rate == config.video_bit_rate
            &&& c@.video_max_size == config.video_max_size
            &&& c@.video_max_fps == config.video_max_fps
            &&& c@.audio_bit_rate == config.audio_bit_rate
            &&& c@.audio_codec == config.audio_codec
        },
{
    lemma_methods_differ();
}

/// Whether the daemon starts when the user logs in is set as it was asked for.
pub proof fn law_autostart_is_set(
    r: Routed,
    req: Request,
    merged: Seq<DeviceView>,
    adb: Seq<DeviceView>,
    info: WirelessPairing,
    config: Config,
    p: request::SetAutostart,
)
    requires
        routes(r, req, merged, adb, info, config),
        req.method@ == "settings.set_autostart"@,
        req.params == Some(request::Payload::SetAutostart(p)),
    ensures
        r is SetAutostart,
        r->SetAutostart_0 == p.enabled,
{
    lemma_methods_differ();
}

/// A window that speaks JSON has an address or a number handed to the core as well; without one
/// its request is refused.
pub proof fn law_json_request_reaches_the_core(
    r: JsonRouted,
    id: u64,
    m: Seq<char>,
    g: GivenView,
    uuid: Option<u128>,
    merged: Seq<DeviceView>,
    adb: Seq<DeviceView>,
    info: WirelessPairing,
)
    requires
        server_proto::routes(r, id, m, g, uuid, merged, adb, info),
    ensures
        m == "device.connect"@ || m == "device.disconnect"@ || m == "session.start"@ ==> if (
        g.serial is Some && g.serial->0.len() > 0) {
            &&& r is Send
            &&& m == "device.connect"@ ==> r->Send_0@ == CommandView::Connect(g.serial->0)
            &&& m == "device.disconnect"@ ==> r->Send_0@ == CommandView::Disconnect(g.serial->0)
            &&& m == "session.start"@ ==> r->Send_0@ == CommandView::StartSession(g.serial->0)
        } else {
            r is Reply && r->Reply_0.id == id && r->Reply_0.error is Some
        },
        m == "session.retry"@ || m == "session.update"@ ==> if (g.uuid is Some && g.uuid->0.len()
            > 0 && uuid is Some) {
            &&& r is Send
            &&& m == "session.retry"@ ==> r->Send_0@ == CommandView::Retry(uuid->0)
            &&& m == "session.update"@ ==> r->Send_0@ is UpdateConfig
        } else {
            r is Reply && r->Reply_0.id == id && r->Reply_0.error is Some
        },
{
    lemma_methods_differ();
}

/// What a window that speaks JSON chooses for a session reaches the core as it was chosen, with
/// the same defaults and the same bound on the volume.
pub proof fn law_json_choices_reach_the_core(
    r: JsonRouted,
    id: u64,
    g: GivenView,
    uuid: u128,
    merged: Seq<DeviceView>,
    adb: Seq<DeviceView>,
    info: WirelessPairing,
)
    requires
        server_proto::routes(r, id, "session.update"@, g, Some(uuid), merged, adb, info),
        g.uuid is Some && g.uuid->0.len() > 0,
    ensures
        r is Send && r->Send_0@ is UpdateConfig,
        r->Send_0@ matches CommandView::UpdateConfig {
            uuid: to,
            clipboard_sync,
            notification_sync,
            audio_sync,
            volume,
        } ==> {
            &&& to == uuid
            &&& clipboard_sync == !(g.clipboard_sync == Some(false))
            &&& notification_sync == !(g.notification_sync == Some(false))
            &&& audio_sync == (g.audio_sync == Some(true))
            &&& volume <= 100
            &&& g.volume is Some && g.volume->0 <= 100 ==> volume == g.volume->0
            &&& g.volume is Some && g.volume->0 > 100 ==> volume == 100
            &&& g.volume is None ==> volume == 80
        },
{
    lemma_methods_differ();
}

/// A window that speaks JSON is told of the devices, of those that adb lists and of what a phone
/// needs to pair, each when it asks for that.
pub proof fn law_json_questions_are_answered(
    r: JsonRouted,
    id: u64,
    m: Seq<char>,
    g: GivenView,
    uuid: Option<u128>,
    merged: Seq<DeviceView>,
    adb: Seq<DeviceView>,
    info: WirelessPairing,
)
    requires
        server_proto::routes(r, id, m, g, uuid, merged, adb, info),
    ensures
        m == "device.list"@ ==> r is Reply && r->Reply_0.id == id && (r->Reply_0.result matches Some(
            JsonResult::Devices(d),
        ) && crate::types::device_views(d@) == merged),
        m == "device.adb_list"@ ==> r is Reply && r->Reply_0.id == id && (
        r->Reply_0.result matches Some(JsonResult::Devices(d)) && crate::types::device_views(d@)
            == adb),
        m == "pairing.info"@ ==> r is Reply && r->Reply_0.id == id && (
        r->Reply_0.result matches Some(JsonResult::Pairing { dns_id, psk, wifi_string })
            && dns_id@ == info.dns_id@ && psk@ == info.psk@),
        m == "clipboard.get"@ ==> r is ReadClipboard,
{
    lemma_methods_differ();
}

/// What a window that speaks JSON gives a method is read under these names.
pub proof fn law_json_is_read_by_name(b: Seq<u8>)
    ensures
        ({
            let g = server_proto::given_in(b);
            &&& g.serial == server_proto::json_str(b, "serial"@)
            &&& g.uuid == server_proto::json_str(b, "uuid"@)
            &&& g.clipboard_sync == server_proto::json_bool(b, "clipboard_sync"@)
            &&& g.notification_sync == server_proto::json_bool(b, "notification_sync"@)
            &&& g.audio_sync == server_proto::json_bool(b, "audio_sync"@)
            &&& g.volume == server_proto::json_u64(b, "volume"@)
        }),
{
}

/// Events go by these names, and no two kinds of them by one.
pub proof fn law_events_have_names_of_their_own(a: super::types::Event, b: super::types::Event)
    ensures
        a is DeviceUpdated ==> a.called() == "device.updated"@,
        a is AdbUpdated ==> a.called() == "adb.updated"@,
        a is SessionUpdated ==> a.called() == "session.updated"@,
        a is ClipboardChanged ==> a.called() == "clipboard.changed"@,
        a is Notification ==> a.called() == "notification"@,
        a.called() == b.called() ==> (a is DeviceUpdated <==> b is DeviceUpdated) && (a is AdbUpdated
            <==> b is AdbUpdated) && (a is SessionUpdated <==> b is SessionUpdated) && (
        a is ClipboardChanged <==> b is ClipboardChanged),
{
    reveal_strlit("device.updated");
    reveal_strlit("adb.updated");
    reveal_strlit("session.updated");
    reveal_strlit("clipboard.changed");
    reveal_strlit("notification");
    assert("device.updated"@.len() == 14 && "adb.updated"@.len() == 11);
    assert("session.updated"@.len() == 15 && "clipboard.changed"@.len() == 17);
    assert("notification"@.len() == 12);
}

/// A window that is told of sessions is told of each of them, in their order, with the state that it
/// is in and what was chosen for it.
pub proof fn law_sessions_are_told(
    told: Seq<super::proto::SessionSummary>,
    s: Seq<super::types::Summary>,
    i: int,
)
    requires
        super::proto::tells_sessions(told, s),
        0 <= i < s.len(),
    ensures
        told.len() == s.len(),
        told[i].serial@ == s[i].serial && told[i].id@ == s[i].id && told[i].name@ == s[i].name,
        told[i].state@ == s[i].state && told[i].session_state@ == s[i].session_state,
        told[i].clipboard_sync == s[i].clipboard_sync && told[i].notification_sync
            == s[i].notification_sync,
        told[i].audio_enabled == s[i].audio_enabled && told[i].volume == s[i].volume,
        told[i].audio_buffer_ms == s[i].audio_buffer_ms,
        told[i].uuid@ == crate::types::uuid_text(s[i].uuid),
{
}

/// An answer is a success or a failure and not both, and goes to the one who asked: a result has the
/// number of the request and no error, an error the number of the request and no result.
pub proof fn law_answers_are_clear(
    r: super::proto::Response,
    id: u64,
    p: response::Payload,
    message: Seq<char>,
    c: Config,
    s: crate::autostart::AutostartState,
)
    ensures
        handlers::is_result(r, id, p) <==> r.id == id && r.result == Some(p) && r.error is None,
        handlers::is_ok(r, id) <==> r.id == id && r.result is None && r.error is None,
        handlers::is_error(r, id, message) <==> r.id == id && r.result is None && r.error is Some
            && r.error->0.code == -1 && r.error->0.message@ == message,
        handlers::is_settings(r, id, c, s) ==> r.id == id && r.error is None && r.result is Some
            && r.result->0 is Settings,
        !(handlers::is_error(r, id, message) && handlers::is_ok(r, id)),
{
}

/// A notification without a title or a text is told with an empty one, any other as it is.
pub proof fn law_missing_text_is_empty(t: Seq<char>)
    ensures
        super::server::text_or_empty(Some(t)) == t,
        super::server::text_or_empty(None).len() == 0,
{
}

/// An error that is told in JSON has the number of the request, no result, the code -1 and the
/// message.
pub proof fn law_json_errors_are_clear(
    r: super::server_proto::JsonRpcResponse,
    id: u64,
    message: Seq<char>,
)
    ensures
        server_proto::is_json_error(r, id, message) <==> r.id == id && r.result is None
            && r.error is Some && r.error->0.code == -1 && r.error->0.message@ == message,
{
}

} // verus!
