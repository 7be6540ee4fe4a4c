//! The window's side of the daemon: what it asks, and what it makes of what it is told.
use crate::ipc::proto;
use crate::ipc::proto::{event, request, response};
use crate::ipc::types::{FRAME_TYPE_EVENT, FRAME_TYPE_RESPONSE};
use crate::text::{
    cat2, cat3, chars_of, copy_text, decimal, decimal_text, number, parse_number, rfind_char,
    rfind_end, signed, signed_text, string_of, trim, trimmed,
};
use std::collections::HashSet;
use vstd::prelude::*;

pub mod fusion;
pub mod laws;

verus! {

broadcast use vstd::std_specs::hash::group_hash_axioms;

/// The number of the first request that is not part of the greeting.
pub const FIRST_ID: u64 = 3;

/// How the window shows a device.
#[derive(Debug, Clone)]
pub struct DeviceInfo {
    pub uuid: String,
    pub serial: String,
    pub state: String,
    pub name: String,
}

/// How the window shows a device that adb lists.
#[derive(Debug, Clone)]
pub struct AdbDeviceInfo {
    pub serial: String,
    pub state: String,
}

/// How the window shows the settings.
#[derive(Debug, Clone)]
pub struct SettingsInfo {
    pub autostart_enabled: bool,
    pub autostart_supported: bool,
    pub video_bit_rate: u32,
    pub video_max_size: u32,
    pub video_max_fps: u32,
    pub audio_bit_rate: u32,
    pub audio_codec: String,
}

/// How the window shows a session.
#[derive(Debug, Clone)]
pub struct SessionInfo {
    pub uuid: String,
    pub id: String,
    pub serial: String,
    pub name: String,
    pub state: String,
    pub session_state: String,
    pub audio_buffer_ms: u64,
    pub clipboard_sync: bool,
    pub notification_sync: bool,
    /// What the user wants.
    pub audio_enabled: bool,
    /// How the audio stands.
    pub audio_state: String,
    /// Why the audio failed.
    pub audio_error: String,
    pub volume: u32,
}

/// What pairing needs.
#[derive(Debug, Clone)]
pub struct PairingInfo {
    pub dns_id: String,
    pub psk: String,
    pub wifi_string: String,
}

/// The applications of a device, and whether they can be shown in windows.
#[derive(Debug, Clone)]
pub struct AppListInfo {
    pub apps: Vec<proto::AppInfo>,
    pub fusion_supported: bool,
}

/// `i` shows what `d` tells.
pub open spec fn shows_device(i: DeviceInfo, d: proto::Device) -> bool {
    i.uuid@ == d.uuid@ && i.serial@ == d.serial@ && i.state@ == d.state@ && i.name@ == d.name@
}

pub open spec fn shows_devices(i: Seq<DeviceInfo>, d: Seq<proto::Device>) -> bool {
    i.len() == d.len() && forall|k: int| 0 <= k < i.len() ==> shows_device(#[trigger] i[k], d[k])
}

/// `i` shows what `d` tells.
pub open spec fn shows_adb(i: AdbDeviceInfo, d: proto::Device) -> bool {
    i.serial@ == d.serial@ && i.state@ == d.state@
}

pub open spec fn shows_adb_list(i: Seq<AdbDeviceInfo>, d: Seq<proto::Device>) -> bool {
    i.len() == d.len() && forall|k: int| 0 <= k < i.len() ==> shows_adb(#[trigger] i[k], d[k])
}

/// `i` shows what `s` tells.
pub open spec fn shows_session(i: SessionInfo, s: proto::SessionSummary) -> bool {
    &&& i.uuid@ == s.uuid@
    &&& i.id@ == s.id@
    &&& i.serial@ == s.serial@
    &&& i.name@ == s.name@
    &&& i.state@ == s.state@
    &&& i.session_state@ == s.session_state@
    &&& i.audio_buffer_ms == s.audio_buffer_ms
    &&& i.clipboard_sync == s.clipboard_sync
    &&& i.notification_sync == s.notification_sync
    &&& i.audio_enabled == s.audio_enabled
    &&& i.audio_state@ == s.audio_state@
    &&& i.audio_error@ == s.audio_error@
    &&& i.volume == s.volume
}

pub open spec fn shows_sessions(i: Seq<SessionInfo>, s: Seq<proto::SessionSummary>) -> bool {
    i.len() == s.len() && forall|k: int| 0 <= k < i.len() ==> shows_session(#[trigger] i[k], s[k])
}

/// `i` shows what `s` tells.
pub open spec fn shows_settings(i: SettingsInfo, s: response::Settings) -> bool {
    &&& i.autostart_enabled == s.autostart_enabled
    &&& i.autostart_supported == s.autostart_supported
    &&& i.video_bit_rate == s.video_bit_rate
    &&& i.video_max_size == s.video_max_size
    &&& i.video_max_fps == s.video_max_fps
    &&& i.audio_bit_rate == s.audio_bit_rate
    &&& i.audio_codec@ == s.audio_codec@
}

/// How the window shows a device.
pub fn device_to_info(device: &proto::Device) -> (r: DeviceInfo)
    ensures
        shows_device(r, *device),
{
    DeviceInfo {
        uuid: copy_text(&device.uuid),
        serial: copy_text(&device.serial),
        state: copy_text(&device.state),
        name: copy_text(&device.name),
    }
}

/// How the window shows a device that adb lists.
pub fn device_to_adb_info(device: &proto::Device) -> (r: AdbDeviceInfo)
    ensures
        shows_adb(r, *device),
{
    AdbDeviceInfo { serial: copy_text(&device.serial), state: copy_text(&device.state) }
}

/// How the window shows a session.
pub fn session_to_info(session: &proto::SessionSummary) -> (r: SessionInfo)
    ensures
        shows_session(r, *session),
{
    SessionInfo {
        uuid: copy_text(&session.uuid),
        id: copy_text(&session.id),
        serial: copy_text(&session.serial),
        name: copy_text(&session.name),
        state: copy_text(&session.state),
        session_state: copy_text(&session.session_state),
        audio_buffer_ms: session.audio_buffer_ms,
        clipboard_sync: session.clipboard_sync,
        notification_sync: session.notification_sync,
        audio_enabled: session.audio_enabled,
        audio_state: copy_text(&session.audio_state),
        audio_error: copy_text(&session.audio_error),
        volume: session.volume,
    }
}

/// How the window shows the settings.
pub fn settings_to_info(s: &response::Settings) -> (r: SettingsInfo)
    ensures
        shows_settings(r, *s),
{
    SettingsInfo {
        autostart_enabled: s.autostart_enabled,
        autostart_supported: s.autostart_supported,
        video_bit_rate: s.video_bit_rate,
        video_max_size: s.video_max_size,
        video_max_fps: s.video_max_fps,
        audio_bit_rate: s.audio_bit_rate,
        audio_codec: copy_text(&s.audio_codec),
    }
}

fn device_infos(devices: &[proto::Device]) -> (r: Vec<DeviceInfo>)
    ensures
        shows_devices(r@, devices@),
{
    let mut r: Vec<DeviceInfo> = Vec::new();
    let mut i: usize = 0;
    while i < devices.len()
        invariant
            i <= devices@.len(),
            r@.len() == i,
            forall|k: int| 0 <= k < i ==> shows_device(#[trigger] r@[k], devices@[k]),
        decreases devices@.len() - i,
    {
        r.push(device_to_info(&devices[i]));
        i += 1;
    }
    r
}

fn adb_infos(devices: &[proto::Device]) -> (r: Vec<AdbDeviceInfo>)
    ensures
        shows_adb_list(r@, devices@),
{
    let mut r: Vec<AdbDeviceInfo> = Vec::new();
    let mut i: usize = 0;
    while i < devices.len()
        invariant
            i <= devices@.len(),
            r@.len() == i,
            forall|k: int| 0 <= k < i ==> shows_adb(#[trigger] r@[k], devices@[k]),
        decreases devices@.len() - i,
    {
        r.push(device_to_adb_info(&devices[i]));
        i += 1;
    }
    r
}

fn session_infos(sessions: &[proto::SessionSummary]) -> (r: Vec<SessionInfo>)
    ensures
        shows_sessions(r@, sessions@),
{
    let mut r: Vec<SessionInfo> = Vec::new();
    let mut i: usize = 0;
    while i < sessions.len()
        invariant
            i <= sessions@.len(),
            r@.len() == i,
            forall|k: int| 0 <= k < i ==> shows_session(#[trigger] r@[k], sessions@[k]),
        decreases sessions@.len() - i,
    {
        r.push(session_to_info(&sessions[i]));
        i += 1;
    }
    r
}

/// What an error of the daemon says.
pub open spec fn error_text(e: proto::RpcError) -> Seq<char> {
    e.message@ + " (code "@ + signed(e.code as int) + ")"@
}

fn tell_error(e: &proto::RpcError) -> (r: String)
    ensures
        r@ == error_text(*e),
{
    let r = cat2(
        cat3(e.message.as_str(), " (code ", signed_text(e.code).as_str()).as_str(),
        ")",
    );
    r
}

/// Whether the daemon did what it was asked; else what its error says.
pub fn check_response(resp: &proto::Response) -> (r: Result<(), String>)
    ensures
        match resp.error {
            None => r is Ok,
            Some(e) => r matches Err(t) && t@ == error_text(e),
        },
{
    match &resp.error {
        Some(e) => Err(tell_error(e)),
        None => Ok(()),
    }
}

/// A method and what it needs.
#[derive(Debug, Clone)]
pub struct Call {
    pub method: String,
    pub params: Option<request::Payload>,
}

/// Changes what the user has chosen for a device.
pub fn update_session_config(
    uuid: String,
    clipboard_sync: bool,
    notification_sync: bool,
    audio_sync: bool,
    volume: u16,
) -> (r: Call)
    ensures
        r.method@ == "session.update"@,
        r.params == Some(
            request::Payload::SessionUpdate(
                request::SessionUpdate {
                    uuid,
                    clipboard_sync: Some(clipboard_sync),
                    notification_sync: Some(notification_sync),
                    audio_sync: Some(audio_sync),
                    volume: Some(volume as u32),
                },
            ),
        ),
{
    Call {
        method: "session.update".to_owned(),
        params: Some(
            request::Payload::SessionUpdate(
                request::SessionUpdate {
                    uuid,
                    clipboard_sync: Some(clipboard_sync),
                    notification_sync: Some(notification_sync),
                    audio_sync: Some(audio_sync),
                    volume: Some(volume as u32),
                },
            ),
        ),
    }
}

/// Tries a session that failed once more.
pub fn retry_session(uuid: String) -> (r: Call)
    ensures
        r.method@ == "session.retry"@,
        r.params == Some(request::Payload::SessionRetry(request::UuidParam { uuid })),
{
    Call {
        method: "session.retry".to_owned(),
        params: Some(request::Payload::SessionRetry(request::UuidParam { uuid })),
    }
}

/// Starts a session with a device that adb lists.
pub fn start_session(serial: String) -> (r: Call)
    ensures
        r.method@ == "session.start"@,
        r.params == Some(request::Payload::SessionStart(request::DeviceSerial { serial })),
{
    Call {
        method: "session.start".to_owned(),
        params: Some(request::Payload::SessionStart(request::DeviceSerial { serial })),
    }
}

/// Asks for what adb lists.
pub fn get_adb_devices() -> (r: Call)
    ensures
        r.method@ == "device.adb_list"@,
        r.params is None,
{
    Call { method: "device.adb_list".to_owned(), params: None }
}

/// Asks for the settings.
pub fn get_settings() -> (r: Call)
    ensures
        r.method@ == "settings.get"@,
        r.params is None,
{
    Call { method: "settings.get".to_owned(), params: None }
}

/// Sets whether the daemon starts when the user logs in.
pub fn set_autostart(enabled: bool) -> (r: Call)
    ensures
        r.method@ == "settings.set_autostart"@,
        r.params == Some(request::Payload::SetAutostart(request::SetAutostart { enabled })),
{
    Call {
        method: "settings.set_autostart".to_owned(),
        params: Some(request::Payload::SetAutostart(request::SetAutostart { enabled })),
    }
}

/// Sets how the phone encodes; what is not given stays as it is.
pub fn set_scrcpy_params(
    video_bit_rate: Option<u32>,
    video_max_size: Option<u32>,
    video_max_fps: Option<u32>,
    audio_bit_rate: Option<u32>,
    audio_codec: Option<String>,
) -> (r: Call)
    ensures
        r.method@ == "settings.set_scrcpy_params"@,
        r.params == Some(
            request::Payload::SetScrcpyParams(
                request::SetScrcpyParams {
                    video_bit_rate,
                    video_max_size,
                    video_max_fps,
                    audio_bit_rate,
                    audio_codec,
                },
            ),
        ),
{
    Call {
        method: "settings.set_scrcpy_params".to_owned(),
        params: Some(
            request::Payload::SetScrcpyParams(
                request::SetScrcpyParams {
                    video_bit_rate,
                    video_max_size,
                    video_max_fps,
                    audio_bit_rate,
                    audio_codec,
                },
            ),
        ),
    }
}

/// Asks for the applications of a device, anew where `force` holds.
pub fn get_apps(uuid: String, force: bool) -> (r: Call)
    ensures
        r.method@ == "app.list"@,
        r.params == Some(request::Payload::AppListParams(request::AppListParams { uuid, force })),
{
    Call {
        method: "app.list".to_owned(),
        params: Some(request::Payload::AppListParams(request::AppListParams { uuid, force })),
    }
}

/// Asks that an application be shown.
pub fn open_app(uuid: String, package_name: String) -> (r: Call)
    ensures
        r.method@ == "app.open"@,
        r.params == Some(
            request::Payload::AppOpenParams(request::AppOpenParams { uuid, package_name }),
        ),
{
    Call {
        method: "app.open".to_owned(),
        params: Some(
            request::Payload::AppOpenParams(request::AppOpenParams { uuid, package_name }),
        ),
    }
}

/// What is said of an answer of another kind than the method `method` has.
pub open spec fn unexpected(method: Seq<char>) -> Seq<char> {
    "daemon 返回了意外的 "@ + method + " 结果"@
}

/// The devices in the answer to [`get_adb_devices`].
pub fn adb_devices_reply(resp: &proto::Response) -> (r: Result<Vec<AdbDeviceInfo>, String>)
    ensures
        match (resp.error, resp.result) {
            (Some(e), _) => r matches Err(t) && t@ == error_text(e),
            (None, Some(response::Payload::AdbList(l))) => r matches Ok(v) && shows_adb_list(
                v@,
                l.devices@,
            ),
            (None, _) => r matches Err(t) && t@ == unexpected("device.adb_list"@),
        },
{
    match check_response(resp) {
        Err(e) => Err(e),
        Ok(_) => match &resp.result {
            Some(response::Payload::AdbList(l)) => Ok(adb_infos(l.devices.as_slice())),
            _ => Err(cat3("daemon 返回了意外的 ", "device.adb_list", " 结果")),
        },
    }
}

/// The settings in the answer to `method`.
pub fn settings_reply(method: &str, resp: &proto::Response) -> (r: Result<SettingsInfo, String>)
    ensures
        match (resp.error, resp.result) {
            (Some(e), _) => r matches Err(t) && t@ == error_text(e),
            (None, Some(response::Payload::Settings(s))) => r matches Ok(v) && shows_settings(v, s),
            (None, _) => r matches Err(t) && t@ == unexpected(method@),
        },
{
    match check_response(resp) {
        Err(e) => Err(e),
        Ok(_) => match &resp.result {
            Some(response::Payload::Settings(s)) => Ok(settings_to_info(s)),
            _ => Err(cat3("daemon 返回了意外的 ", method, " 结果")),
        },
    }
}

/// The applications are the same, in the same order.
pub open spec fn same_apps(a: Seq<proto::AppInfo>, b: Seq<proto::AppInfo>) -> bool {
    a.len() == b.len() && forall|i: int|
        0 <= i < a.len() ==> (#[trigger] a[i]).package_name@ == b[i].package_name@ && a[i].label@
            == b[i].label@ && a[i].system == b[i].system
}

/// The applications in the answer to [`get_apps`].
pub fn apps_reply(resp: &proto::Response) -> (r: Result<AppListInfo, String>)
    ensures
        match (resp.error, resp.result) {
            (Some(e), _) => r matches Err(t) && t@ == error_text(e),
            (None, Some(response::Payload::AppList(l))) => r matches Ok(v) && same_apps(
                v.apps@,
                l.apps@,
            ) && v.fusion_supported == l.fusion_supported,
            (None, _) => r matches Err(t) && t@ == unexpected("app.list"@),
        },
{
    match check_response(resp) {
        Err(e) => Err(e),
        Ok(_) => match &resp.result {
            Some(response::Payload::AppList(l)) => {
                let mut apps: Vec<proto::AppInfo> = Vec::new();
                let mut i: usize = 0;
                while i < l.apps.len()
                    invariant
                        i <= l.apps@.len(),
                        apps@.len() == i,
                        forall|k: int|
                            0 <= k < i ==> (#[trigger] apps@[k]).package_name@
                                == l.apps@[k].package_name@ && apps@[k].label@ == l.apps@[k].label@
                                && apps@[k].system == l.apps@[k].system,
                    decreases l.apps@.len() - i,
                {
                    let a: &proto::AppInfo = &l.apps[i];
                    apps.push(
                        proto::AppInfo {
                            package_name: copy_text(&a.package_name),
                            label: copy_text(&a.label),
                            system: a.system,
                        },
                    );
                    i += 1;
                }
                Ok(AppListInfo { apps, fusion_supported: l.fusion_supported })
            },
            _ => Err(cat3("daemon 返回了意外的 ", "app.list", " 结果")),
        },
    }
}

/// A window that is to be opened.
#[derive(Debug, Clone)]
pub struct WindowPlan {
    pub window_id: u64,
    pub label: String,
    pub title: String,
    pub url: String,
}

/// The page of the window: where it connects to, and what it shows.
pub open spec fn window_url(addr: Seq<char>, package: Seq<char>, window_id: u64) -> Seq<char> {
    "/fusion.html?addr="@ + addr + "&port="@ + addr.skip(rfind_end(addr, ':') as int)
        + "&package="@ + package + "&window_id="@ + decimal(window_id as nat)
}

/// The window for the answer to [`open_app`].
pub fn open_app_reply(package_name: &str, resp: &proto::Response) -> (r: Result<
    WindowPlan,
    String,
>)
    ensures
        match (resp.error, resp.result) {
            (Some(e), _) => r matches Err(t) && t@ == error_text(e),
            (None, Some(response::Payload::AppOpen(o))) => if o.addr@.len() == 0 {
                r matches Err(t) && t@ == "daemon 未返回设备直连地址"@
            } else {
                r matches Ok(w) && {
                    &&& w.window_id == o.window_id
                    &&& w.label@ == "fusion-"@ + decimal(o.window_id as nat)
                    &&& w.title@ == package_name@ + " — Kulua"@
                    &&& w.url@ == window_url(o.addr@, package_name@, o.window_id)
                }
            },
            (None, _) => r matches Err(t) && t@ == unexpected("app.open"@),
        },
{
    match check_response(resp) {
        Err(e) => Err(e),
        Ok(_) => match &resp.result {
            Some(response::Payload::AppOpen(o)) => {
                let addr = chars_of(o.addr.as_str());
                if addr.len() == 0 {
                    return Err("daemon 未返回设备直连地址".to_owned());
                }
                let cut: usize = rfind_char(addr.as_slice(), ':');
                let a: &[char] = addr.as_slice();
                let port = string_of(&a[cut..a.len()]);
                assert(port@ =~= o.addr@.skip(cut as int));
                let id = decimal_text(o.window_id);
                let url = cat3("/fusion.html?addr=", o.addr.as_str(), "&port=");
                let url = cat3(url.as_str(), port.as_str(), "&package=");
                let url = cat3(url.as_str(), package_name, "&window_id=");
                let url = cat2(url.as_str(), id.as_str());
                Ok(
                    WindowPlan {
                        window_id: o.window_id,
                        label: cat2("fusion-", id.as_str()),
                        title: cat2(package_name, " — Kulua"),
                        url,
                    },
                )
            },
            _ => Err(cat3("daemon 返回了意外的 ", "app.open", " 结果")),
        },
    }
}

/// How the connection to the daemon stands.
#[derive(Debug, Clone, Copy, PartialEq, Eq, Structural)]
pub enum Link {
    /// There has not been one.
    Never,
    Open,
    /// There was one.
    Gone,
}

/// What the window is told.
#[derive(Debug, Clone)]
pub enum UiEvent {
    Devices(Vec<DeviceInfo>),
    Adb(Vec<AdbDeviceInfo>),
    Sessions(Vec<SessionInfo>),
    Clipboard { text: String, serial: String },
    Notification { serial: String, title: String, text: String, app: String },
    Pairing(PairingInfo),
}

/// What is done with an answer of the daemon.
#[derive(Debug, Clone)]
pub enum Answer {
    /// It goes to the one who asked.
    Deliver(proto::Response),
    /// It answers the greeting, and the window is told.
    Tell(UiEvent),
    /// The greeting failed; this is reported.
    Report(String),
    /// Nobody asked.
    Nothing,
}

/// What a frame of the daemon holds.
#[derive(Debug, Clone, Copy, PartialEq, Eq, Structural)]
pub enum FrameHolds {
    Event,
    Response,
    Nothing,
}

/// What a frame of type `frame_type` holds.
pub fn frame_holds(frame_type: u8) -> (r: FrameHolds)
    ensures
        r == if frame_type == FRAME_TYPE_EVENT {
            FrameHolds::Event
        } else if frame_type == FRAME_TYPE_RESPONSE {
            FrameHolds::Response
        } else {
            FrameHolds::Nothing
        },
{
    if frame_type == FRAME_TYPE_EVENT {
        FrameHolds::Event
    } else if frame_type == FRAME_TYPE_RESPONSE {
        FrameHolds::Response
    } else {
        FrameHolds::Nothing
    }
}

/// What the window is told of an event of the daemon, if anything.
pub open spec fn tells(u: Option<UiEvent>, e: Option<event::Payload>) -> bool {
    match e {
        Some(event::Payload::DeviceUpdated(l)) => u matches Some(UiEvent::Devices(d))
            && shows_devices(d@, l.devices@),
        Some(event::Payload::AdbUpdated(l)) => u matches Some(UiEvent::Adb(d)) && shows_adb_list(
            d@,
            l.devices@,
        ),
        Some(event::Payload::SessionUpdated(l)) => u matches Some(UiEvent::Sessions(s))
            && shows_sessions(s@, l.sessions@),
        Some(event::Payload::ClipboardChanged(c)) => u matches Some(
            UiEvent::Clipboard { text, serial },
        ) && text@ == c.text@ && serial@ == c.serial@,
        Some(event::Payload::Notification(n)) => u matches Some(
            UiEvent::Notification { serial, title, text, app },
        ) && serial@ == n.serial@ && title@ == n.title@ && text@ == n.text@ && app@ == n.app@,
        None => u is None,
    }
}

/// What the window knows of the daemon.
pub struct DaemonClient {
    devices: Vec<DeviceInfo>,
    connected: bool,
    pairing_info: Option<PairingInfo>,
    link: Link,
    next_id: u64,
    pending: HashSet<u64>,
}

/// What the window knows of the daemon, as the contracts speak of it.
#[verifier::ext_equal]
pub struct ClientState {
    pub connected: bool,
    pub link: Link,
    pub next_id: u64,
    /// The requests whose answers are awaited.
    pub pending: Set<u64>,
}

impl View for DaemonClient {
    type V = ClientState;

    closed spec fn view(&self) -> ClientState {
        ClientState {
            connected: self.connected,
            link: self.link,
            next_id: self.next_id,
            pending: self.pending@,
        }
    }
}

impl ClientState {
    /// After a number was given out. The numbers begin anew after the greatest.
    pub open spec fn counted(self) -> ClientState {
        ClientState {
            next_id: if self.next_id == u64::MAX {
                0
            } else {
                (self.next_id + 1) as u64
            },
            ..self
        }
    }

    /// After an answer to request `id` came.
    pub open spec fn answered(self, id: u64) -> ClientState {
        ClientState { pending: self.pending.remove(id), ..self }
    }
}

impl DaemonClient {
    /// Before there is a connection.
    pub fn new() -> (r: Self)
        ensures
            r@ == (ClientState {
                connected: false,
                link: Link::Never,
                next_id: FIRST_ID,
                pending: Set::empty(),
            }),
            r.devices_known()@.len() == 0,
            r.pairing_known() is None,
    {
        DaemonClient {
            devices: Vec::new(),
            connected: false,
            pairing_info: None,
            link: Link::Never,
            next_id: FIRST_ID,
            pending: HashSet::new(),
        }
    }

    /// The devices that the window was told of last.
    pub closed spec fn devices_known(self) -> Vec<DeviceInfo> {
        self.devices
    }

    /// What the window was told of pairing.
    pub closed spec fn pairing_known(self) -> Option<PairingInfo> {
        self.pairing_info
    }

    pub fn get_devices(&self) -> (r: &Vec<DeviceInfo>)
        ensures
            *r == self.devices_known(),
    {
        &self.devices
    }

    pub fn get_connection_status(&self) -> (r: bool)
        ensures
            r == self@.connected,
    {
        self.connected
    }

    pub fn get_pairing_info(&self) -> (r: Option<&PairingInfo>)
        ensures
            match r {
                Some(p) => self.pairing_known() == Some(*p),
                None => self.pairing_known() is None,
            },
    {
        match &self.pairing_info {
            Some(p) => Some(p),
            None => None,
        }
    }

    /// Takes a connection that was made in; the result is the greeting: two requests, for
    /// the devices and for what pairing needs.
    pub fn connect_daemon(&mut self) -> (r: Vec<proto::Request>)
        ensures
            final(self)@ == (ClientState { connected: true, link: Link::Open, ..old(self)@ }),
            final(self).devices_known() == old(self).devices_known(),
            final(self).pairing_known() == old(self).pairing_known(),
            r@.len() == 2,
            r@[0].id == 1 && r@[0].method@ == "device.list"@ && r@[0].params is None,
            r@[1].id == 2 && r@[1].method@ == "pairing.info"@ && r@[1].params is None,
    {
        self.connected = true;
        self.link = Link::Open;
        let mut r: Vec<proto::Request> = Vec::new();
        r.push(proto::Request { id: 1, method: "device.list".to_owned(), params: None });
        r.push(proto::Request { id: 2, method: "pairing.info".to_owned(), params: None });
        r
    }

    /// Takes in that there is no connection, or none any more. Nobody waits for answers any
    /// longer.
    pub fn disconnect(&mut self)
        ensures
            final(self)@ == (ClientState {
                connected: false,
                link: if old(self)@.link == Link::Never {
                    Link::Never
                } else {
                    Link::Gone
                },
                pending: Set::empty(),
                ..old(self)@
            }),
            final(self).devices_known() == old(self).devices_known(),
            final(self).pairing_known() == old(self).pairing_known(),
    {
        self.connected = false;
        if self.link != Link::Never {
            self.link = Link::Gone;
        }
        self.pending = HashSet::new();
    }

    /// The request for `call`, under a number of its own.
    pub fn ipc_request(&mut self, call: Call) -> (r: Result<proto::Request, String>)
        ensures
            final(self)@ == old(self)@.counted(),
            final(self).devices_known() == old(self).devices_known(),
            final(self).pairing_known() == old(self).pairing_known(),
            match old(self)@.link {
                Link::Never => r matches Err(e) && e@ == "未连接 daemon"@,
                Link::Gone => r matches Err(e) && e@ == "daemon 已断开"@,
                Link::Open => r matches Ok(q) && q.id == old(self)@.next_id && q.method
                    == call.method && q.params == call.params,
            },
    {
        let id: u64 = self.next_id;
        self.next_id = if id == u64::MAX {
            0
        } else {
            id + 1
        };
        match self.link {
            Link::Never => Err("未连接 daemon".to_owned()),
            Link::Gone => Err("daemon 已断开".to_owned()),
            Link::Open => Ok(
                proto::Request { id, method: call.method, params: call.params },
            ),
        }
    }

    /// Takes in whether request `id` was sent. The answer to one that was sent is awaited;
    /// one that was not is answered with the error.
    pub fn on_sent(&mut self, id: u64, sent: bool) -> (r: Result<(), String>)
        ensures
            final(self)@ == if sent {
                ClientState { pending: old(self)@.pending.insert(id), ..old(self)@ }
            } else {
                old(self)@
            },
            final(self).devices_known() == old(self).devices_known(),
            final(self).pairing_known() == old(self).pairing_known(),
            r is Ok <==> sent,
            r matches Err(e) ==> e@ == "daemon 已断开"@,
    {
        if sent {
            self.pending.insert(id);
            Ok(())
        } else {
            Err("daemon 已断开".to_owned())
        }
    }

    /// What the window is told of an event of the daemon.
    pub fn on_event(&mut self, e: proto::Event) -> (r: Option<UiEvent>)
        ensures
            final(self)@ == old(self)@,
            final(self).pairing_known() == old(self).pairing_known(),
            tells(r, e.data),
            match e.data {
                Some(event::Payload::DeviceUpdated(l)) => shows_devices(
                    final(self).devices_known()@,
                    l.devices@,
                ),
                _ => final(self).devices_known() == old(self).devices_known(),
            },
    {
        match e.data {
            Some(event::Payload::DeviceUpdated(l)) => {
                self.devices = device_infos(l.devices.as_slice());
                Some(UiEvent::Devices(device_infos(l.devices.as_slice())))
            },
            Some(event::Payload::AdbUpdated(l)) => Some(
                UiEvent::Adb(adb_infos(l.devices.as_slice())),
            ),
            Some(event::Payload::SessionUpdated(l)) => Some(
                UiEvent::Sessions(session_infos(l.sessions.as_slice())),
            ),
            Some(event::Payload::ClipboardChanged(c)) => Some(
                UiEvent::Clipboard { text: c.text, serial: c.serial },
            ),
            Some(event::Payload::Notification(n)) => Some(
                UiEvent::Notification { serial: n.serial, title: n.title, text: n.text, app: n.app },
            ),
            None => None,
        }
    }

    /// What is done with an answer of the daemon.
    pub fn on_response(&mut self, resp: proto::Response) -> (r: Answer)
        ensures
            final(self)@ == old(self)@.answered(resp.id),
            if old(self)@.pending.contains(resp.id) {
                &&& r == Answer::Deliver(resp)
                &&& final(self).devices_known() == old(self).devices_known()
                &&& final(self).pairing_known() == old(self).pairing_known()
            } else {
                match (resp.error, resp.result) {
                    (Some(e), _) => {
                        &&& r matches Answer::Report(t) && t@ == "IPC 握手失败: "@ + error_text(e)
                        &&& final(self).devices_known() == old(self).devices_known()
                        &&& final(self).pairing_known() == old(self).pairing_known()
                    },
                    (None, Some(response::Payload::DeviceList(l))) => if resp.id == 1 {
                        &&& r matches Answer::Tell(UiEvent::Devices(d)) && shows_devices(
                            d@,
                            l.devices@,
                        )
                        &&& shows_devices(final(self).devices_known()@, l.devices@)
                        &&& final(self).pairing_known() == old(self).pairing_known()
                    } else {
                        &&& r == Answer::Nothing
                        &&& final(self).devices_known() == old(self).devices_known()
                        &&& final(self).pairing_known() == old(self).pairing_known()
                    },
                    (None, Some(response::Payload::PairingInfo(p))) => if resp.id == 2 {
                        &&& r matches Answer::Tell(UiEvent::Pairing(i)) && i.dns_id@ == p.dns_id@
                            && i.psk@ == p.psk@ && i.wifi_string@ == p.wifi_string@
                        &&& final(self).pairing_known() matches Some(i) && i.dns_id@ == p.dns_id@
                            && i.psk@ == p.psk@ && i.wifi_string@ == p.wifi_string@
                        &&& final(self).devices_known() == old(self).devices_known()
                    } else {
                        &&& r == Answer::Nothing
                        &&& final(self).devices_known() == old(self).devices_known()
                        &&& final(self).pairing_known() == old(self).pairing_known()
                    },
                    (None, _) => {
                        &&& r == Answer::Nothing
                        &&& final(self).devices_known() == old(self).devices_known()
                        &&& final(self).pairing_known() == old(self).pairing_known()
                    },
                }
            },
    {
        let id: u64 = resp.id;
        if self.pending.remove(&id) {
            return Answer::Deliver(resp);
        }
        assert(self@.pending =~= old(self)@.pending.remove(id));
        match resp.error {
            Some(e) => Answer::Report(cat2("IPC 握手失败: ", tell_error(&e).as_str())),
            None => match resp.result {
                Some(response::Payload::DeviceList(l)) => if id == 1 {
                    self.devices = device_infos(l.devices.as_slice());
                    Answer::Tell(UiEvent::Devices(device_infos(l.devices.as_slice())))
                } else {
                    Answer::Nothing
                },
                Some(response::Payload::PairingInfo(p)) => if id == 2 {
                    self.pairing_info = Some(
                        PairingInfo {
                            dns_id: copy_text(&p.dns_id),
                            psk: copy_text(&p.psk),
                            wifi_string: copy_text(&p.wifi_string),
                        },
                    );
                    Answer::Tell(
                        UiEvent::Pairing(
                            PairingInfo {
                                dns_id: p.dns_id,
                                psk: p.psk,
                                wifi_string: p.wifi_string,
                            },
                        ),
                    )
                } else {
                    Answer::Nothing
                },
                _ => Answer::Nothing,
            },
        }
    }
}

/// Until the numbers begin anew, a request has a number that no request before it had and
/// that the greeting does not use.
pub proof fn law_requests_have_numbers_of_their_own(s: ClientState, before: Set<u64>)
    requires
        FIRST_ID <= s.next_id < u64::MAX,
        forall|id: u64| before.contains(id) ==> id < s.next_id,
    ensures
        !before.contains(s.next_id),
        s.next_id != 1 && s.next_id != 2,
        s.counted().next_id > s.next_id,
        forall|id: u64| before.insert(s.next_id).contains(id) ==> id < s.counted().next_id,
{
}

/// A request is answered once: a second answer under its number is not awaited.
pub proof fn law_request_is_answered_once(s: ClientState, id: u64)
    ensures
        !s.answered(id).pending.contains(id),
        forall|other: u64|
            other != id ==> (s.answered(id).pending.contains(other) <==> s.pending.contains(
                other,
            )),
{
}

/// What to do next while the daemon's port is being waited for.
#[derive(Debug, Clone)]
pub enum PortStep {
    /// The port, as it is written.
    Found(String),
    /// Wait 200 milliseconds, then look again.
    Sleep,
    GiveUp,
}

/// What to do where the daemon's file holds `content`, which is `None` where it cannot be
/// read, after `elapsed` of the `timeout` milliseconds have gone.
pub fn wait_for_port(content: Option<&str>, elapsed: u64, timeout: u64) -> (r: PortStep)
    ensures
        match content {
            Some(c) if trimmed(c@).len() > 0 => r matches PortStep::Found(s) && s@ == trimmed(c@),
            _ => r == if elapsed >= timeout {
                PortStep::GiveUp
            } else {
                PortStep::Sleep
            },
        },
{
    if let Some(c) = content {
        let all = chars_of(c);
        let t: &[char] = trim(all.as_slice());
        if t.len() > 0 {
            return PortStep::Found(string_of(t));
        }
    }
    if elapsed >= timeout {
        PortStep::GiveUp
    } else {
        PortStep::Sleep
    }
}

/// The port that `s` spells.
pub fn read_port(s: &str) -> (r: Option<u16>)
    ensures
        match r {
            Some(p) => number(s@, 0xFFFF) == Some(p as nat),
            None => number(s@, 0xFFFF) is None,
        },
{
    let all = chars_of(s);
    match parse_number(all.as_slice(), 0xFFFF) {
        Some(p) => Some(p as u16),
        None => None,
    }
}

} // verus!
