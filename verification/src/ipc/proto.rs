//! The messages between the daemon and its window.
use crate::text::{copy_option, copy_text};
use crate::types::write_uuid;
use vstd::prelude::*;

pub mod event;
pub mod request;
pub mod response;

verus! {

/// What the window asks for.
#[derive(Debug, Clone, PartialEq)]
pub struct Request {
    pub id: u64,
    pub method: String,
    /// What the method needs; a method that needs nothing has none.
    pub params: Option<request::Payload>,
}

/// What the daemon answers: a result, an error, or neither where there is nothing to tell.
#[derive(Debug, Clone, PartialEq)]
pub struct Response {
    pub id: u64,
    pub result: Option<response::Payload>,
    pub error: Option<RpcError>,
}

/// What went wrong.
#[derive(Debug, Clone, PartialEq)]
pub struct RpcError {
    pub code: i32,
    pub message: String,
}

/// What the daemon tells unasked.
#[derive(Debug, Clone, PartialEq)]
pub struct Event {
    pub data: Option<event::Payload>,
}

/// The addresses that a device is known by.
#[derive(Debug, Clone, PartialEq)]
pub struct DeviceIdentity {
    pub usb: Option<String>,
    pub mdns: Option<String>,
    pub ip: Option<String>,
}

impl View for DeviceIdentity {
    type V = crate::types::Identity;

    open spec fn view(&self) -> crate::types::Identity {
        crate::types::Identity {
            usb: crate::text::string_view(self.usb),
            mdns: crate::text::string_view(self.mdns),
            ip: crate::text::string_view(self.ip),
        }
    }
}

/// A device.
#[derive(Debug, Clone, PartialEq)]
pub struct Device {
    pub uuid: String,
    pub id: String,
    pub serial: String,
    /// How it stands with adb.
    pub state: String,
    pub name: String,
    pub identity: Option<DeviceIdentity>,
}

/// `m` tells of the device `d`.
pub open spec fn tells_device(m: Device, d: crate::types::DeviceView) -> bool {
    &&& m.uuid@ == crate::types::uuid_text(d.uuid)
    &&& m.id@ == d.id
    &&& m.serial@ == d.serial
    &&& m.state@ == d.state.told()
    &&& m.name@ == d.name
    &&& m.identity matches Some(i) && i@ == d.identity
}

/// The messages tell of the devices, one of each, in their order.
pub open spec fn tells_devices(m: Seq<Device>, d: Seq<crate::types::DeviceView>) -> bool {
    m.len() == d.len() && forall|i: int| 0 <= i < m.len() ==> tells_device(#[trigger] m[i], d[i])
}

impl vstd::std_specs::convert::FromSpecImpl<&crate::types::DeviceIdentity> for DeviceIdentity {
    open spec fn obeys_from_spec() -> bool {
        false
    }

    open spec fn from_spec(identity: &crate::types::DeviceIdentity) -> DeviceIdentity {
        DeviceIdentity { usb: identity.usb, mdns: identity.mdns, ip: identity.ip }
    }
}

impl From<&crate::types::DeviceIdentity> for DeviceIdentity {
    fn from(identity: &crate::types::DeviceIdentity) -> (r: Self)
        ensures
            r@ == identity@,
    {
        DeviceIdentity {
            usb: copy_option(&identity.usb),
            mdns: copy_option(&identity.mdns),
            ip: copy_option(&identity.ip),
        }
    }
}

impl vstd::std_specs::convert::FromSpecImpl<&crate::types::Device> for Device {
    open spec fn obeys_from_spec() -> bool {
        false
    }

    open spec fn from_spec(device: &crate::types::Device) -> Device {
        arbitrary()
    }
}

impl From<&crate::types::Device> for Device {
    fn from(device: &crate::types::Device) -> (r: Self)
        ensures
            tells_device(r, device@),
    {
        Device {
            uuid: write_uuid(device.uuid),
            id: copy_text(&device.id),
            serial: copy_text(&device.serial),
            state: device.state.text(),
            name: copy_text(&device.name),
            identity: Some(DeviceIdentity::from(&device.identity)),
        }
    }
}

/// A list of devices.
#[derive(Debug, Clone, PartialEq)]
pub struct DeviceListData {
    pub devices: Vec<Device>,
}

/// A list of sessions.
#[derive(Debug, Clone, PartialEq)]
pub struct SessionListData {
    pub sessions: Vec<SessionSummary>,
}

/// What is told of a session.
#[derive(Debug, Clone, PartialEq)]
pub struct SessionSummary {
    pub uuid: String,
    pub id: String,
    pub serial: String,
    pub name: String,
    pub state: String,
    pub session_state: String,
    pub clipboard_sync: bool,
    pub notification_sync: bool,
    pub audio_enabled: bool,
    pub volume: u32,
    pub audio_buffer_ms: u64,
    /// How the audio stands; empty where the daemon does not tell.
    pub audio_state: String,
    /// Why the audio failed; empty where it did not, or the daemon does not tell.
    pub audio_error: String,
}

/// `m` tells of the session `s`.
pub open spec fn tells_session(m: SessionSummary, s: crate::ipc::types::Summary) -> bool {
    &&& m.uuid@ == crate::types::uuid_text(s.uuid)
    &&& m.id@ == s.id
    &&& m.serial@ == s.serial
    &&& m.name@ == s.name
    &&& m.state@ == s.state
    &&& m.session_state@ == s.session_state
    &&& m.clipboard_sync == s.clipboard_sync
    &&& m.notification_sync == s.notification_sync
    &&& m.audio_enabled == s.audio_enabled
    &&& m.volume == s.volume
    &&& m.audio_buffer_ms == s.audio_buffer_ms
    &&& m.audio_state@.len() == 0
    &&& m.audio_error@.len() == 0
}

/// The messages tell of the sessions, one of each, in their order.
pub open spec fn tells_sessions(
    m: Seq<SessionSummary>,
    s: Seq<crate::ipc::types::Summary>,
) -> bool {
    m.len() == s.len() && forall|i: int| 0 <= i < m.len() ==> tells_session(#[trigger] m[i], s[i])
}

impl vstd::std_specs::convert::FromSpecImpl<&crate::ipc::types::SessionSummary> for SessionSummary {
    open spec fn obeys_from_spec() -> bool {
        false
    }

    open spec fn from_spec(session: &crate::ipc::types::SessionSummary) -> SessionSummary {
        arbitrary()
    }
}

impl From<&crate::ipc::types::SessionSummary> for SessionSummary {
    fn from(session: &crate::ipc::types::SessionSummary) -> (r: Self)
        ensures
            tells_session(r, session@),
    {
        SessionSummary {
            uuid: write_uuid(session.uuid),
            id: copy_text(&session.id),
            serial: copy_text(&session.serial),
            name: copy_text(&session.name),
            state: copy_text(&session.state),
            session_state: copy_text(&session.session_state),
            clipboard_sync: session.clipboard_sync,
            notification_sync: session.notification_sync,
            audio_enabled: session.audio_enabled,
            volume: session.volume as u32,
            audio_buffer_ms: session.audio_buffer_ms,
            audio_state: String::new(),
            audio_error: String::new(),
        }
    }
}

/// A text on the clipboard, and the device that it came from.
#[derive(Debug, Clone, PartialEq)]
pub struct ClipboardData {
    pub text: String,
    pub serial: String,
}

/// A notification of a device.
#[derive(Debug, Clone, PartialEq)]
pub struct NotificationData {
    pub serial: String,
    pub title: String,
    pub text: String,
    pub app: String,
}

/// An application of a device.
#[derive(Debug, Clone, PartialEq)]
pub struct AppInfo {
    pub package_name: String,
    pub label: String,
    pub system: bool,
}

/// `m` tells of the application `a`.
pub open spec fn tells_app(m: AppInfo, a: crate::apps::App) -> bool {
    m.package_name@ == a.package_name && m.label@ == a.label && m.system == a.system
}

/// The messages tell of the applications, one of each, in their order.
pub open spec fn tells_apps(m: Seq<AppInfo>, a: Seq<crate::apps::App>) -> bool {
    m.len() == a.len() && forall|i: int| 0 <= i < m.len() ==> tells_app(#[trigger] m[i], a[i])
}

impl vstd::std_specs::convert::FromSpecImpl<&crate::apps::AppInfo> for AppInfo {
    open spec fn obeys_from_spec() -> bool {
        false
    }

    open spec fn from_spec(app: &crate::apps::AppInfo) -> AppInfo {
        arbitrary()
    }
}

impl From<&crate::apps::AppInfo> for AppInfo {
    fn from(app: &crate::apps::AppInfo) -> (r: Self)
        ensures
            tells_app(r, app@),
    {
        AppInfo {
            package_name: copy_text(&app.package_name),
            label: copy_text(&app.label),
            system: app.system,
        }
    }
}

/// The messages that tell of the devices.
pub fn tell_devices(devices: &[crate::types::Device]) -> (r: Vec<Device>)
    ensures
        tells_devices(r@, crate::types::device_views(devices@)),
{
    let mut r: Vec<Device> = Vec::new();
    let mut i: usize = 0;
    while i < devices.len()
        invariant
            i <= devices@.len(),
            r@.len() == i,
            forall|j: int|
                0 <= j < i ==> tells_device(
                    #[trigger] r@[j],
                    crate::types::device_views(devices@)[j],
                ),
        decreases devices@.len() - i,
    {
        r.push(Device::from(&devices[i]));
        i += 1;
    }
    r
}

/// The messages that tell of the sessions.
pub fn tell_sessions(sessions: &[crate::ipc::types::SessionSummary]) -> (r: Vec<SessionSummary>)
    ensures
        tells_sessions(r@, crate::ipc::types::summary_views(sessions@)),
{
    let mut r: Vec<SessionSummary> = Vec::new();
    let mut i: usize = 0;
    while i < sessions.len()
        invariant
            i <= sessions@.len(),
            r@.len() == i,
            forall|j: int|
                0 <= j < i ==> tells_session(
                    #[trigger] r@[j],
                    crate::ipc::types::summary_views(sessions@)[j],
                ),
        decreases sessions@.len() - i,
    {
        r.push(SessionSummary::from(&sessions[i]));
        i += 1;
    }
    r
}

/// The messages that tell of the applications.
pub fn tell_apps(apps: &[crate::apps::AppInfo]) -> (r: Vec<AppInfo>)
    ensures
        tells_apps(r@, crate::apps::app_views(apps@)),
{
    let mut r: Vec<AppInfo> = Vec::new();
    let mut i: usize = 0;
    while i < apps.len()
        invariant
            i <= apps@.len(),
            r@.len() == i,
            forall|j: int|
                0 <= j < i ==> tells_app(#[trigger] r@[j], crate::apps::app_views(apps@)[j]),
        decreases apps@.len() - i,
    {
        r.push(AppInfo::from(&apps[i]));
        i += 1;
    }
    r
}

} // verus!
