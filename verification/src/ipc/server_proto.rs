//! The daemon's side for windows that still send what a method needs as JSON.
use super::types::{ClipboardData, Event, NotifData, SessionListData, SessionSummary};
use crate::app::Command;
use crate::device_map::DeviceMap;
use crate::notification::NotifInfo;
use crate::session::runner::ClipInput;
use crate::text::{cat2, copy_text, same};
use crate::types::{read_uuid, Device};
use crate::wireless_pair::WirelessPairing;
use vstd::prelude::*;

verus! {

/// What a window asks for. What the method needs is JSON, or nothing.
#[derive(Debug)]
pub struct JsonRpcRequest {
    pub id: u64,
    pub method: String,
    pub params: Vec<u8>,
}

/// What went wrong.
#[derive(Debug)]
pub struct JsonRpcError {
    pub code: i32,
    pub message: String,
}

/// What a method answers.
#[derive(Debug)]
pub enum JsonResult {
    Null,
    /// A list of devices.
    Devices(Vec<Device>),
    /// What the clipboard holds.
    Text(String),
    /// What a phone needs to pair.
    Pairing { dns_id: String, psk: String, wifi_string: String },
}

/// What the daemon answers.
#[derive(Debug)]
pub struct JsonRpcResponse {
    pub id: u64,
    pub result: Option<JsonResult>,
    pub error: Option<JsonRpcError>,
}

/// Whether bytes are JSON.
pub uninterp spec fn is_json(b: Seq<u8>) -> bool;

/// `serde_json::from_slice` into `serde_json::Value`: whether the bytes are JSON. It depends
/// on the bytes alone.
#[verifier::external_body]
fn check_json(b: &[u8]) -> (r: bool)
    ensures
        r == is_json(b@),
{
    serde_json::from_slice::<serde_json::Value>(b).is_ok()
}

/// The text that a JSON object has under a key.
pub uninterp spec fn json_str(b: Seq<u8>, key: Seq<char>) -> Option<Seq<char>>;

/// `serde_json::from_slice`, `serde_json::Value::get` and `serde_json::Value::as_str`: the
/// text that a JSON object has under a key. There is none where the bytes are no JSON, or no
/// object, or the key is not there, or stands for something else.
#[verifier::external_body]
fn read_json_str(b: &[u8], key: &str) -> (r: Option<String>)
    ensures
        crate::text::string_view(r) == json_str(b@, key@),
{
    let v = serde_json::from_slice::<serde_json::Value>(b).ok()?;
    v.get(key)?.as_str().map(|s| s.to_string())
}

/// The truth value that a JSON object has under a key.
pub uninterp spec fn json_bool(b: Seq<u8>, key: Seq<char>) -> Option<bool>;

/// `serde_json::from_slice`, `serde_json::Value::get` and `serde_json::Value::as_bool`: the
/// truth value that a JSON object has under a key, where it has one.
#[verifier::external_body]
fn read_json_bool(b: &[u8], key: &str) -> (r: Option<bool>)
    ensures
        r == json_bool(b@, key@),
{
    let v = serde_json::from_slice::<serde_json::Value>(b).ok()?;
    v.get(key)?.as_bool()
}

/// The number that a JSON object has under a key.
pub uninterp spec fn json_u64(b: Seq<u8>, key: Seq<char>) -> Option<u64>;

/// `serde_json::from_slice`, `serde_json::Value::get` and `serde_json::Value::as_u64`: the
/// number that a JSON object has under a key, where it has one that is not negative and has
/// no fraction.
#[verifier::external_body]
fn read_json_u64(b: &[u8], key: &str) -> (r: Option<u64>)
    ensures
        r == json_u64(b@, key@),
{
    let v = serde_json::from_slice::<serde_json::Value>(b).ok()?;
    v.get(key)?.as_u64()
}

/// Whether what a method needs can be read at all: it is not there, or it is JSON. Where it
/// cannot, the connection is over.
pub fn params_readable(b: &[u8]) -> (r: bool)
    ensures
        r == (b@.len() == 0 || is_json(b@)),
{
    b.len() == 0 || check_json(b)
}

/// What a method was given, as far as it is of the right kind.
pub struct Given {
    pub serial: Option<String>,
    pub uuid: Option<String>,
    pub clipboard_sync: Option<bool>,
    pub notification_sync: Option<bool>,
    pub audio_sync: Option<bool>,
    pub volume: Option<u64>,
}

/// What a method was given, as the contracts speak of it.
#[verifier::ext_equal]
pub struct GivenView {
    pub serial: Option<Seq<char>>,
    pub uuid: Option<Seq<char>>,
    pub clipboard_sync: Option<bool>,
    pub notification_sync: Option<bool>,
    pub audio_sync: Option<bool>,
    pub volume: Option<u64>,
}

impl View for Given {
    type V = GivenView;

    open spec fn view(&self) -> GivenView {
        GivenView {
            serial: crate::text::string_view(self.serial),
            uuid: crate::text::string_view(self.uuid),
            clipboard_sync: self.clipboard_sync,
            notification_sync: self.notification_sync,
            audio_sync: self.audio_sync,
            volume: self.volume,
        }
    }
}

/// What JSON gives a method.
pub open spec fn given_in(b: Seq<u8>) -> GivenView {
    GivenView {
        serial: json_str(b, "serial"@),
        uuid: json_str(b, "uuid"@),
        clipboard_sync: json_bool(b, "clipboard_sync"@),
        notification_sync: json_bool(b, "notification_sync"@),
        audio_sync: json_bool(b, "audio_sync"@),
        volume: json_u64(b, "volume"@),
    }
}

/// What JSON gives a method.
pub fn read_given(b: &[u8]) -> (r: Given)
    ensures
        r@ == given_in(b@),
{
    Given {
        serial: read_json_str(b, "serial"),
        uuid: read_json_str(b, "uuid"),
        clipboard_sync: read_json_bool(b, "clipboard_sync"),
        notification_sync: read_json_bool(b, "notification_sync"),
        audio_sync: read_json_bool(b, "audio_sync"),
        volume: read_json_u64(b, "volume"),
    }
}

/// What the daemon is to do with a request.
pub enum JsonRouted {
    /// Answer so.
    Reply(JsonRpcResponse),
    /// Hand the command to the core, and answer whether that worked.
    Send(Command),
    /// Read the desktop's clipboard, and answer with it.
    ReadClipboard,
}

pub open spec fn is_json_error(r: JsonRpcResponse, id: u64, message: Seq<char>) -> bool {
    r.id == id && r.result is None && (r.error matches Some(e) && e.code == -1 && e.message@
        == message)
}

pub fn make_result(id: u64, result: JsonResult) -> (r: JsonRpcResponse)
    ensures
        r.id == id,
        r.result == Some(result),
        r.error is None,
{
    JsonRpcResponse { id, result: Some(result), error: None }
}

pub fn make_error(id: u64, code: i32, message: &str) -> (r: JsonRpcResponse)
    ensures
        r.id == id,
        r.result is None,
        r.error matches Some(e) && e.code == code && e.message@ == message@,
{
    JsonRpcResponse {
        id,
        result: None,
        error: Some(JsonRpcError { code, message: message.to_owned() }),
    }
}

/// What the daemon answers once it has tried to hand a command to the core.
pub fn after_command(id: u64, sent: bool) -> (r: JsonRpcResponse)
    ensures
        if sent {
            r.id == id && r.result == Some(JsonResult::Null) && r.error is None
        } else {
            is_json_error(r, id, "core 正在关闭"@)
        },
{
    if sent {
        make_result(id, JsonResult::Null)
    } else {
        make_error(id, -1, "core 正在关闭")
    }
}

/// What the daemon answers once it has read the clipboard; nothing where it could not.
pub fn clipboard_reply(id: u64, text: Option<String>) -> (r: JsonRpcResponse)
    ensures
        r.id == id,
        r.error is None,
        r.result matches Some(JsonResult::Text(t)) && t@ == match text {
            Some(s) => s@,
            None => Seq::empty(),
        },
{
    let text = match text {
        Some(t) => t,
        None => {
            let s = String::new();
            assert(s@ =~= Seq::empty());
            s
        },
    };
    make_result(id, JsonResult::Text(text))
}

/// The text, or an empty one.
pub open spec fn or_empty(o: Option<Seq<char>>) -> Seq<char> {
    match o {
        Some(s) => s,
        None => Seq::empty(),
    }
}

/// What a method that the core carries out asks for; `None` for other methods. `uuid` is
/// the number that the given text stands for.
pub open spec fn core_wish(method: Seq<char>, g: GivenView, uuid: Option<u128>) -> Option<
    Result<crate::app::CommandView, Seq<char>>,
> {
    let serial = or_empty(g.serial);
    let text = or_empty(g.uuid);
    if method == "device.connect"@ || method == "device.disconnect"@ || method
        == "session.start"@ {
        Some(
            if serial.len() == 0 {
                Err("缺少 serial 参数"@)
            } else if method == "device.connect"@ {
                Ok(crate::app::CommandView::Connect(serial))
            } else if method == "device.disconnect"@ {
                Ok(crate::app::CommandView::Disconnect(serial))
            } else {
                Ok(crate::app::CommandView::StartSession(serial))
            },
        )
    } else if method == "session.update"@ || method == "session.retry"@ {
        Some(
            if text.len() == 0 {
                Err("缺少 uuid 参数"@)
            } else {
                match uuid {
                    None => Err("无效 uuid 格式"@),
                    Some(uuid) => if method == "session.retry"@ {
                        Ok(crate::app::CommandView::Retry(uuid))
                    } else {
                        Ok(
                            crate::app::CommandView::UpdateConfig {
                                uuid,
                                clipboard_sync: match g.clipboard_sync {
                                    Some(b) => b,
                                    None => true,
                                },
                                notification_sync: match g.notification_sync {
                                    Some(b) => b,
                                    None => true,
                                },
                                audio_sync: match g.audio_sync {
                                    Some(b) => b,
                                    None => false,
                                },
                                volume: match g.volume {
                                    Some(v) => if v < 100 {
                                        v as u16
                                    } else {
                                        100
                                    },
                                    None => 80,
                                },
                            },
                        )
                    },
                }
            },
        )
    } else {
        None
    }
}

/// `r` is what is to be done with a request.
pub open spec fn routes(
    r: JsonRouted,
    id: u64,
    m: Seq<char>,
    g: GivenView,
    uuid: Option<u128>,
    merged: Seq<crate::types::DeviceView>,
    adb: Seq<crate::types::DeviceView>,
    info: WirelessPairing,
) -> bool {
    match core_wish(m, g, uuid) {
        Some(Ok(v)) => r matches JsonRouted::Send(c) && c@ == v,
        Some(Err(message)) => r matches JsonRouted::Reply(e) && is_json_error(e, id, message),
        None => if m == "device.list"@ {
            &&& r matches JsonRouted::Reply(x)
            &&& x.id == id && x.error is None
            &&& x.result matches Some(JsonResult::Devices(d))
            &&& crate::types::device_views(d@) == merged
        } else if m == "device.adb_list"@ {
            &&& r matches JsonRouted::Reply(x)
            &&& x.id == id && x.error is None
            &&& x.result matches Some(JsonResult::Devices(d))
            &&& crate::types::device_views(d@) == adb
        } else if m == "clipboard.get"@ {
            r is ReadClipboard
        } else if m == "pairing.info"@ {
            &&& r matches JsonRouted::Reply(x)
            &&& x.id == id && x.error is None
            &&& x.result matches Some(JsonResult::Pairing { dns_id, psk, wifi_string })
            &&& dns_id@ == info.dns_id@ && psk@ == info.psk@
            &&& wifi_string@ == crate::wireless_pair::pairing_text(info.dns_id@, info.psk@)
        } else {
            r matches JsonRouted::Reply(e) && is_json_error(e, id, "未知方法: "@ + m)
        },
    }
}

fn copy_devices(v: &[Device]) -> (r: Vec<Device>)
    ensures
        crate::types::device_views(r@) == crate::types::device_views(v@),
{
    let mut r: Vec<Device> = Vec::new();
    let mut i: usize = 0;
    let ghost all = crate::types::device_views(v@);
    while i < v.len()
        invariant
            i <= v@.len(),
            all == crate::types::device_views(v@),
            crate::types::device_views(r@) == all.take(i as int),
        decreases v@.len() - i,
    {
        let ghost before = r@;
        r.push(v[i].duplicate());
        i += 1;
        assert(crate::types::device_views(r@) =~= crate::types::device_views(before).push(
            all[i - 1],
        ));
        assert(crate::types::device_views(r@) =~= all.take(i as int));
    }
    assert(all.take(i as int) =~= all);
    r
}

fn copy_listed(adb: &DeviceMap) -> (r: Vec<Device>)
    ensures
        crate::types::device_views(r@) == adb@,
{
    let mut r: Vec<Device> = Vec::new();
    let mut i: usize = 0;
    while i < adb.len()
        invariant
            i <= adb@.len(),
            crate::types::device_views(r@) == adb@.take(i as int),
        decreases adb@.len() - i,
    {
        let ghost before = r@;
        r.push(adb.at(i).duplicate());
        i += 1;
        assert(crate::types::device_views(r@) =~= crate::types::device_views(before).push(
            adb@[i - 1],
        ));
        assert(crate::types::device_views(r@) =~= adb@.take(i as int));
    }
    assert(adb@.take(i as int) =~= adb@);
    r
}

fn text_of(o: &Option<String>) -> (r: String)
    ensures
        r@ == or_empty(crate::text::string_view(*o)),
{
    match o {
        Some(s) => copy_text(s),
        None => {
            let s = String::new();
            assert(s@ =~= Seq::empty());
            s
        },
    }
}

fn update_command(given: &Given, uuid: u128) -> (r: Command)
    ensures
        r@ == (crate::app::CommandView::UpdateConfig {
            uuid,
            clipboard_sync: match given.clipboard_sync {
                Some(b) => b,
                None => true,
            },
            notification_sync: match given.notification_sync {
                Some(b) => b,
                None => true,
            },
            audio_sync: match given.audio_sync {
                Some(b) => b,
                None => false,
            },
            volume: match given.volume {
                Some(v) => if v < 100 {
                    v as u16
                } else {
                    100
                },
                None => 80,
            },
        }),
{
    Command::UpdateConfig {
        uuid,
        clipboard_sync: match given.clipboard_sync {
            Some(b) => b,
            None => true,
        },
        notification_sync: match given.notification_sync {
            Some(b) => b,
            None => true,
        },
        audio_sync: match given.audio_sync {
            Some(b) => b,
            None => false,
        },
        volume: match given.volume {
            Some(v) => if v < 100 {
                v as u16
            } else {
                100
            },
            None => 80,
        },
    }
}

/// What the daemon is to do with a request, from what it was given and from the number that
/// the given text stands for.
pub fn route(
    id: u64,
    method: &str,
    given: &Given,
    uuid: Option<u128>,
    merged: &[Device],
    adb: &DeviceMap,
    info: &WirelessPairing,
) -> (r: JsonRouted)
    ensures
        routes(
            r,
            id,
            method@,
            given@,
            uuid,
            crate::types::device_views(merged@),
            adb@,
            *info,
        ),
{
    let is_connect: bool = same(method, "device.connect");
    let is_disconnect: bool = same(method, "device.disconnect");
    if is_connect || is_disconnect || same(method, "session.start") {
        let serial = text_of(&given.serial);
        if serial.as_str().is_empty() {
            return JsonRouted::Reply(make_error(id, -1, "缺少 serial 参数"));
        }
        return JsonRouted::Send(
            if is_connect {
                Command::Connect(serial)
            } else if is_disconnect {
                Command::Disconnect(serial)
            } else {
                Command::StartSession(serial)
            },
        );
    }
    let is_retry: bool = same(method, "session.retry");
    if is_retry || same(method, "session.update") {
        let text = text_of(&given.uuid);
        if text.as_str().is_empty() {
            return JsonRouted::Reply(make_error(id, -1, "缺少 uuid 参数"));
        }
        return match uuid {
            Some(uuid) => JsonRouted::Send(
                if is_retry {
                    Command::Retry(uuid)
                } else {
                    update_command(given, uuid)
                },
            ),
            None => JsonRouted::Reply(make_error(id, -1, "无效 uuid 格式")),
        };
    }
    if same(method, "device.list") {
        JsonRouted::Reply(make_result(id, JsonResult::Devices(copy_devices(merged))))
    } else if same(method, "device.adb_list") {
        JsonRouted::Reply(make_result(id, JsonResult::Devices(copy_listed(adb))))
    } else if same(method, "clipboard.get") {
        JsonRouted::ReadClipboard
    } else if same(method, "pairing.info") {
        JsonRouted::Reply(
            make_result(
                id,
                JsonResult::Pairing {
                    dns_id: copy_text(&info.dns_id),
                    psk: copy_text(&info.psk),
                    wifi_string: info.get_info(),
                },
            ),
        )
    } else {
        let message = cat2("未知方法: ", method);
        JsonRouted::Reply(make_error(id, -1, message.as_str()))
    }
}

/// What the daemon is to do with a request: `merged` are the devices, `adb` those that adb
/// lists, `info` is what a phone needs to pair.
pub fn dispatch_request(
    req: &JsonRpcRequest,
    merged: &[Device],
    adb: &DeviceMap,
    info: &WirelessPairing,
) -> (r: JsonRouted)
    ensures
        routes(
            r,
            req.id,
            req.method@,
            given_in(req.params@),
            crate::types::uuid_in(or_empty(given_in(req.params@).uuid)),
            crate::types::device_views(merged@),
            adb@,
            *info,
        ),
{
    let given = read_given(req.params.as_slice());
    let text = text_of(&given.uuid);
    let uuid = read_uuid(text.as_str());
    route(req.id, req.method.as_str(), &given, uuid, merged, adb, info)
}

/// The devices have changed.
pub fn device_event(devices: &[Device]) -> (r: Event)
    ensures
        r matches Event::DeviceUpdated { data } && crate::types::device_views(data@)
            == crate::types::device_views(devices@),
{
    Event::DeviceUpdated { data: copy_devices(devices) }
}

/// What adb lists has changed.
pub fn adb_event(adb: &DeviceMap) -> (r: Event)
    ensures
        r matches Event::AdbUpdated { data } && crate::types::device_views(data@) == adb@,
{
    Event::AdbUpdated { data: copy_listed(adb) }
}

/// The sessions have changed.
pub fn session_event(sessions: &[SessionSummary]) -> (r: Event)
    ensures
        r matches Event::SessionUpdated { data } && super::types::summary_views(data.sessions@)
            == super::types::summary_views(sessions@),
{
    let ghost all = super::types::summary_views(sessions@);
    let mut copied: Vec<SessionSummary> = Vec::new();
    let mut i: usize = 0;
    while i < sessions.len()
        invariant
            i <= sessions@.len(),
            all == super::types::summary_views(sessions@),
            super::types::summary_views(copied@) =~= all.take(i as int),
        decreases sessions@.len() - i,
    {
        let ghost before = copied@;
        copied.push(sessions[i].duplicate());
        assert(super::types::summary_views(copied@) =~= super::types::summary_views(before).push(
            all[i as int],
        ));
        i += 1;
    }
    assert(all.take(i as int) =~= all);
    Event::SessionUpdated { data: SessionListData { sessions: copied } }
}

/// What is done with a connection.
pub enum ConnectionStep {
    Tell(Event),
    Nothing,
    /// The connection is over.
    End,
}

/// Something came from the desktop's clipboard.
pub fn on_clip(input: ClipInput) -> (r: ConnectionStep)
    ensures
        match input {
            ClipInput::Text(t) => {
                &&& r matches ConnectionStep::Tell(Event::ClipboardChanged { data })
                &&& data.text == t
                &&& data.serial@.len() == 0
            },
            ClipInput::Lagged(_) => r is Nothing,
            ClipInput::Closed => r is End,
        },
{
    match input {
        ClipInput::Text(text) => ConnectionStep::Tell(
            Event::ClipboardChanged { data: ClipboardData { text, serial: String::new() } },
        ),
        ClipInput::Lagged(_) => ConnectionStep::Nothing,
        ClipInput::Closed => ConnectionStep::End,
    }
}

/// A device has a notification.
pub fn notification_event(serial: &str, notif: NotifInfo) -> (r: Event)
    ensures
        r matches Event::Notification { data } && data.serial@ == serial@ && data.title@
            == super::server::text_or_empty(notif@.title) && data.text@
            == super::server::text_or_empty(notif@.body) && data.app@ == notif@.package,
{
    Event::Notification {
        data: NotifData {
            serial: serial.to_owned(),
            title: super::server::or_empty(notif.title),
            text: super::server::or_empty(notif.body),
            app: notif.package,
        },
    }
}

} // verus!
