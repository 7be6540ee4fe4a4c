//! The core: which devices there are, which of them have a session, which addresses are
//! still to be connected to, and what passes between the clipboards.
//!
//! The core decides; what it decides is carried out elsewhere and reported back. Times are
//! in nanoseconds on a clock that never goes back.
use crate::device_map::DeviceMap;
use crate::ipc::types::SessionSummary;
use crate::proto::reliable::elapsed_since;
use crate::session::config::SessionConfig;
use crate::session::deploy::read_name;
use crate::session::handle::{
    Handle, SESSION_STATE_CONNECTING, SESSION_STATE_FAILED, SESSION_STATE_STOPPED,
};
use crate::text::{copy_text, holds, same};
use crate::types::{contains_str, new_uuid, Device, DeviceAddrKind, DeviceIdentity, DeviceState};
use crate::wireless_pair::format_address;
use vstd::prelude::*;

pub mod effects;
pub mod laws;

verus! {

/// The port of the first session; every later one gets the next.
pub const FIRST_PORT: u16 = 27183;

/// An address that could not be connected to so often is given up.
pub const MAX_ATTEMPTS: u8 = 5;

/// How often a clipboard that cannot be read is complained of: every 30 seconds.
pub const CLIPBOARD_ERROR_INTERVAL: u64 = 30_000_000_000;

/// The core's clock: 150 milliseconds.
pub const CORE_TICK: u64 = 150_000_000;

/// What the core is asked to do.
#[derive(Debug)]
pub enum Command {
    /// Connect to this address.
    Connect(String),
    /// End the session of the device that is known by this address.
    Disconnect(String),
    /// Try a session that has failed again.
    Retry(u128),
    /// The user has chosen something else for a device.
    UpdateConfig {
        uuid: u128,
        clipboard_sync: bool,
        notification_sync: bool,
        audio_sync: bool,
        volume: u16,
    },
    /// Begin the session of the device that is known by this address.
    StartSession(String),
    /// List the applications of a device.
    ListApps { uuid: u128, force: bool },
    /// Show an application of a device in a window.
    OpenApp { uuid: u128, package_name: String },
    /// Begin all sessions anew.
    RestartAllSessions,
}

/// What the core is asked to do, as the contracts speak of it.
pub enum CommandView {
    Connect(Seq<char>),
    Disconnect(Seq<char>),
    Retry(u128),
    UpdateConfig {
        uuid: u128,
        clipboard_sync: bool,
        notification_sync: bool,
        audio_sync: bool,
        volume: u16,
    },
    StartSession(Seq<char>),
    ListApps { uuid: u128, force: bool },
    OpenApp { uuid: u128, package_name: Seq<char> },
    RestartAllSessions,
}

impl View for Command {
    type V = CommandView;

    open spec fn view(&self) -> CommandView {
        match *self {
            Command::Connect(a) => CommandView::Connect(a@),
            Command::Disconnect(a) => CommandView::Disconnect(a@),
            Command::Retry(uuid) => CommandView::Retry(uuid),
            Command::UpdateConfig { uuid, clipboard_sync, notification_sync, audio_sync, volume } =>
            CommandView::UpdateConfig {
                uuid,
                clipboard_sync,
                notification_sync,
                audio_sync,
                volume,
            },
            Command::StartSession(a) => CommandView::StartSession(a@),
            Command::ListApps { uuid, force } => CommandView::ListApps { uuid, force },
            Command::OpenApp { uuid, package_name } => CommandView::OpenApp {
                uuid,
                package_name: package_name@,
            },
            Command::RestartAllSessions => CommandView::RestartAllSessions,
        }
    }
}

/// A device, its session if it has one, and what the user has chosen for it.
struct DeviceEntry {
    device: Device,
    session: Option<Handle>,
    config: SessionConfig,
}

/// A device, its session if it has one, and what the user has chosen for it.
#[verifier::ext_equal]
pub struct Entry {
    pub device: crate::types::DeviceView,
    pub session: Option<Handle>,
    pub config: crate::session::config::Choice,
}

impl View for DeviceEntry {
    type V = Entry;

    closed spec fn view(&self) -> Entry {
        Entry { device: self.device@, session: self.session, config: self.config@ }
    }
}

/// An address that is to be connected to, and how often that has failed.
struct PendingEntry {
    addr: String,
    attempts: u8,
}

/// An address that is to be connected to, and how often that has failed.
#[verifier::ext_equal]
pub struct Pending {
    pub addr: Seq<char>,
    pub attempts: u8,
}

impl View for PendingEntry {
    type V = Pending;

    closed spec fn view(&self) -> Pending {
        Pending { addr: self.addr@, attempts: self.attempts }
    }
}

/// What a device is looked for by.
pub enum Query {
    /// It is known by this address.
    Addr(Seq<char>),
    /// It calls itself so.
    Id(Seq<char>),
    Uuid(u128),
    /// adb reaches it at this address.
    Serial(Seq<char>),
    /// It goes by this text in one of these ways.
    Any(Seq<char>),
    /// So, and it has a session.
    AnyRunning(Seq<char>),
}

impl Query {
    pub open spec fn fits(self, e: Entry) -> bool {
        match self {
            Query::Addr(a) => e.device.identity.knows(a),
            Query::Id(a) => e.device.id == a,
            Query::Uuid(u) => e.device.uuid == u,
            Query::Serial(a) => e.device.serial == a,
            Query::Any(a) => e.device.serial == a || e.device.id == a || e.device.identity.knows(a),
            Query::AnyRunning(a) => e.session is Some && (e.device.serial == a || e.device.id == a
                || e.device.identity.knows(a)),
        }
    }
}

/// The place of the first device that fits.
pub open spec fn first(s: Seq<Entry>, q: Query) -> Option<nat>
    decreases s.len(),
{
    if s.len() == 0 {
        None
    } else if q.fits(s.first()) {
        Some(0)
    } else {
        match first(s.skip(1), q) {
            Some(i) => Some(i + 1),
            None => None,
        }
    }
}

pub proof fn lemma_first(s: Seq<Entry>, q: Query)
    ensures
        match first(s, q) {
            Some(i) => i < s.len() && q.fits(s[i as int]) && forall|j: int|
                0 <= j < i ==> !q.fits(#[trigger] s[j]),
            None => forall|j: int| 0 <= j < s.len() ==> !q.fits(#[trigger] s[j]),
        },
    decreases s.len(),
{
    if s.len() > 0 && !q.fits(s.first()) {
        lemma_first(s.skip(1), q);
        match first(s.skip(1), q) {
            Some(i) => {
                assert(s.skip(1)[i as int] == s[(i + 1) as int]);
                assert forall|j: int| 0 <= j < i + 1 implies !q.fits(#[trigger] s[j]) by {
                    if j > 0 {
                        assert(s.skip(1)[j - 1] == s[j]);
                    }
                }
            },
            None => {
                assert forall|j: int| 0 <= j < s.len() implies !q.fits(#[trigger] s[j]) by {
                    if j > 0 {
                        assert(s.skip(1)[j - 1] == s[j]);
                    }
                }
            },
        }
    }
}

/// What the core knows.
#[verifier::ext_equal]
pub struct CoreState {
    pub devices: Seq<Entry>,
    /// The addresses that are to be connected to, in their turn.
    pub pending: Seq<Pending>,
    /// The port of the next session.
    pub port_counter: u16,
    /// What was last seen on the desktop's clipboard.
    pub last_seen: Option<Seq<char>>,
    /// What last came from a phone.
    pub received: Option<Seq<char>>,
    /// When a clipboard that cannot be read was last complained of.
    pub complained_at: u64,
}

/// What a phone answered to the question for its serial number, or its address.
pub open spec fn hardware_id(
    serial: Seq<char>,
    state: crate::types::State,
    reply: Option<Seq<u8>>,
) -> Seq<char> {
    if state == crate::types::State::Device {
        match crate::session::deploy::name_in(reply) {
            Some(id) => id,
            None => serial,
        }
    } else {
        serial
    }
}

impl Entry {
    /// The device has been seen at the address `serial`: it is known by it from now on. adb
    /// uses it where its form comes before that of the address in use, and it is no service
    /// name.
    pub open spec fn seen(self, serial: Seq<char>, state: crate::types::State) -> Entry {
        Entry {
            device: crate::types::DeviceView {
                identity: self.device.identity.merged(crate::types::Identity::only(serial)),
                state,
                serial: if crate::types::addr_kind(serial).rank() > crate::types::addr_kind(
                    self.device.serial,
                ).rank() && crate::text::find_text(serial, "._tcp"@) is None {
                    serial
                } else {
                    self.device.serial
                },
                ..self.device
            },
            ..self
        }
    }

    /// A device that was not known before.
    pub open spec fn fresh(
        uuid: u128,
        id: Seq<char>,
        serial: Seq<char>,
        state: crate::types::State,
    ) -> Entry {
        Entry {
            device: crate::types::DeviceView {
                uuid,
                id,
                serial,
                state,
                name: Seq::empty(),
                identity: crate::types::Identity::only(serial),
            },
            session: None,
            config: crate::session::config::Choice::standard(),
        }
    }
}

impl CoreState {
    pub open spec fn empty(now: u64) -> CoreState {
        CoreState {
            devices: Seq::empty(),
            pending: Seq::empty(),
            port_counter: FIRST_PORT,
            last_seen: None,
            received: None,
            complained_at: now,
        }
    }

    pub open spec fn with_entry(self, i: nat, e: Entry) -> CoreState {
        CoreState { devices: self.devices.update(i as int, e), ..self }
    }

    /// `e` under its number, in place of what was there.
    pub open spec fn put(self, e: Entry) -> CoreState {
        match first(self.devices, Query::Uuid(e.device.uuid)) {
            Some(i) => self.with_entry(i, e),
            None => CoreState { devices: self.devices.push(e), ..self },
        }
    }

    /// A device was listed at the address `serial`. It is one that is known by this
    /// address, or one that calls itself so, or it is new and gets the number `uuid`.
    pub open spec fn inserted(
        self,
        serial: Seq<char>,
        state: crate::types::State,
        reply: Option<Seq<u8>>,
        uuid: u128,
    ) -> (CoreState, u128) {
        match first(self.devices, Query::Addr(serial)) {
            Some(i) => (
                self.with_entry(i, self.devices[i as int].seen(serial, state)),
                self.devices[i as int].device.uuid,
            ),
            None => {
                let id = hardware_id(serial, state, reply);
                match first(self.devices, Query::Id(id)) {
                    Some(i) => (
                        self.with_entry(i, self.devices[i as int].seen(serial, state)),
                        self.devices[i as int].device.uuid,
                    ),
                    None => (self.put(Entry::fresh(uuid, id, serial, state)), uuid),
                }
            },
        }
    }

    /// No two devices have one number.
    pub open spec fn distinct(self) -> bool {
        forall|i: int, j: int|
            0 <= i < j < self.devices.len() ==> (#[trigger] self.devices[i]).device.uuid != (
            #[trigger] self.devices[j]).device.uuid
    }

    /// No address that waits has failed too often.
    pub open spec fn patient(self) -> bool {
        forall|i: int|
            0 <= i < self.pending.len() ==> (#[trigger] self.pending[i]).attempts < MAX_ATTEMPTS
    }

    /// An address is waiting.
    pub open spec fn awaits(self, addr: Seq<char>) -> bool {
        exists|i: int| 0 <= i < self.pending.len() && (#[trigger] self.pending[i]).addr == addr
    }

    /// An address joins the end of the queue.
    pub open spec fn queued(self, addr: Seq<char>) -> CoreState {
        CoreState { pending: self.pending.push(Pending { addr, attempts: 0 }), ..self }
    }

    /// An address leaves the queue.
    pub open spec fn unqueued(self, addr: Seq<char>) -> CoreState {
        CoreState { pending: self.pending.filter(|p: Pending| p.addr != addr), ..self }
    }

    /// The address whose turn it is, which is `self.pending[0]`, has been taken from the
    /// queue and could not be connected to. It goes to the end, until it has failed too often.
    pub open spec fn turned(self) -> CoreState {
        self.taken().failed(self.pending[0])
    }

    /// The address whose turn it is leaves the queue.
    pub open spec fn taken(self) -> CoreState {
        CoreState { pending: self.pending.skip(1), ..self }
    }

    /// An address that was taken from the queue could not be connected to.
    pub open spec fn failed(self, p: Pending) -> CoreState {
        if p.attempts + 1 >= MAX_ATTEMPTS {
            self
        } else {
            CoreState {
                pending: self.pending.push(Pending { attempts: (p.attempts + 1) as u8, ..p }),
                ..self
            }
        }
    }

    /// A text came from a phone; whether it is to be written to the desktop's clipboard.
    pub open spec fn heard(self, text: Seq<char>) -> (CoreState, bool) {
        if self.received == Some(text) || self.last_seen == Some(text) {
            (self, false)
        } else {
            (CoreState { received: Some(text), last_seen: Some(text), ..self }, true)
        }
    }

    /// The desktop's clipboard holds `text`; whether that is to go to the phones.
    pub open spec fn copied(self, text: Seq<char>, now: u64) -> (CoreState, bool) {
        if self.last_seen == Some(text) {
            (self, false)
        } else {
            (
                CoreState { last_seen: Some(text), complained_at: now, ..self },
                self.received != Some(text),
            )
        }
    }

    /// The desktop's clipboard cannot be read; whether that is to be said.
    pub open spec fn unreadable(self, now: u64) -> (CoreState, bool) {
        if crate::proto::reliable::elapsed(now, self.complained_at) >= CLIPBOARD_ERROR_INTERVAL {
            (CoreState { complained_at: now, ..self }, true)
        } else {
            (self, false)
        }
    }

    /// The session of device `i` is taken from it.
    pub open spec fn without_session(self, i: nat) -> CoreState {
        self.with_entry(i, Entry { session: None, ..self.devices[i as int] })
    }
}

/// A session that is to be stopped.
#[derive(Debug)]
pub struct StopOrder {
    pub uuid: u128,
    pub serial: String,
    pub port: u16,
}

/// A session that is to be started.
#[derive(Debug)]
pub struct StartOrder {
    pub device: Device,
    pub port: u16,
    pub config: SessionConfig,
}

/// A session that is to be stopped, as the contracts speak of it.
#[verifier::ext_equal]
pub struct Stop {
    pub uuid: u128,
    pub serial: Seq<char>,
    pub port: u16,
}

/// A session that is to be started, as the contracts speak of it.
#[verifier::ext_equal]
pub struct Start {
    pub device: crate::types::DeviceView,
    pub port: u16,
    pub config: crate::session::config::Choice,
}

impl View for StopOrder {
    type V = Stop;

    open spec fn view(&self) -> Stop {
        Stop { uuid: self.uuid, serial: self.serial@, port: self.port }
    }
}

impl View for StartOrder {
    type V = Start;

    open spec fn view(&self) -> Start {
        Start { device: self.device@, port: self.port, config: self.config@ }
    }
}

pub open spec fn stop_view(o: Option<StopOrder>) -> Option<Stop> {
    match o {
        Some(s) => Some(s@),
        None => None,
    }
}

pub open spec fn start_view(o: Option<StartOrder>) -> Option<Start> {
    match o {
        Some(s) => Some(s@),
        None => None,
    }
}

pub open spec fn stop_views(v: Seq<StopOrder>) -> Seq<Stop> {
    v.map_values(|s: StopOrder| s@)
}

pub open spec fn start_views(v: Seq<StartOrder>) -> Seq<Start> {
    v.map_values(|s: StartOrder| s@)
}

/// The handle of a session that is just being started.
pub open spec fn new_handle(port: u16, c: crate::session::config::Choice) -> Handle {
    Handle {
        port,
        clipboard_enabled: c.clipboard_sync,
        notification_enabled: c.notification_sync,
        audio_enabled: c.audio_enabled,
        volume: c.volume,
        session_state: SESSION_STATE_CONNECTING,
        audio_latency: 0,
    }
}

impl CoreState {
    /// A session is started for device `i`, unless it has one.
    pub open spec fn started(self, i: nat) -> (CoreState, Option<Start>) {
        let e = self.devices[i as int];
        if e.session is Some {
            (self, None)
        } else {
            (
                CoreState {
                    devices: self.devices.update(
                        i as int,
                        Entry { session: Some(new_handle(self.port_counter, e.config)), ..e },
                    ),
                    port_counter: (self.port_counter + 1) as u16,
                    ..self
                },
                Some(Start { device: e.device, port: self.port_counter, config: e.config }),
            )
        }
    }

    /// The order to stop the session of device `i`.
    pub open spec fn stop_of(self, i: nat) -> Option<Stop> {
        let e = self.devices[i as int];
        match e.session {
            Some(h) => Some(Stop { uuid: e.device.uuid, serial: e.device.serial, port: h.port }),
            None => None,
        }
    }
}

fn copy_handle(h: &Handle) -> (r: Handle)
    ensures
        r == *h,
{
    Handle {
        port: h.port,
        clipboard_enabled: h.clipboard_enabled,
        notification_enabled: h.notification_enabled,
        audio_enabled: h.audio_enabled,
        volume: h.volume,
        session_state: h.session_state,
        audio_latency: h.audio_latency,
    }
}

/// The core.
pub struct Core {
    devices: Vec<DeviceEntry>,
    pending: Vec<PendingEntry>,
    port_counter: u16,
    last_seen: Option<String>,
    received: Option<String>,
    complained_at: u64,
}

/// The views of the devices.
spec fn entry_views(v: Seq<DeviceEntry>) -> Seq<Entry> {
    v.map_values(|e: DeviceEntry| e@)
}

/// The views of the addresses that wait.
spec fn pending_views(v: Seq<PendingEntry>) -> Seq<Pending> {
    v.map_values(|p: PendingEntry| p@)
}

impl View for Core {
    type V = CoreState;

    closed spec fn view(&self) -> CoreState {
        CoreState {
            devices: entry_views(self.devices@),
            pending: pending_views(self.pending@),
            port_counter: self.port_counter,
            last_seen: crate::text::string_view(self.last_seen),
            received: crate::text::string_view(self.received),
            complained_at: self.complained_at,
        }
    }
}

/// What a device is looked for by.
enum Wanted<'a> {
    Addr(&'a str),
    Id(&'a str),
    Uuid(u128),
    Serial(&'a str),
    Any(&'a str),
    AnyRunning(&'a str),
}

impl<'a> Wanted<'a> {
    spec fn query(self) -> Query {
        match self {
            Wanted::Addr(a) => Query::Addr(a@),
            Wanted::Id(a) => Query::Id(a@),
            Wanted::Uuid(u) => Query::Uuid(u),
            Wanted::Serial(a) => Query::Serial(a@),
            Wanted::Any(a) => Query::Any(a@),
            Wanted::AnyRunning(a) => Query::AnyRunning(a@),
        }
    }

    fn fits(&self, e: &DeviceEntry) -> (r: bool)
        ensures
            r == self.query().fits(e@),
    {
        match self {
            Wanted::Addr(a) => e.device.identity.contains_addr(a),
            Wanted::Id(a) => same(e.device.id.as_str(), a),
            Wanted::Uuid(u) => e.device.uuid == *u,
            Wanted::Serial(a) => same(e.device.serial.as_str(), a),
            Wanted::Any(a) => same(e.device.serial.as_str(), a) || same(e.device.id.as_str(), a)
                || e.device.identity.contains_addr(a),
            Wanted::AnyRunning(a) => e.session.is_some() && (same(e.device.serial.as_str(), a)
                || same(e.device.id.as_str(), a) || e.device.identity.contains_addr(a)),
        }
    }
}

impl Core {
    /// No two devices have one number, and no address has failed too often.
    pub open spec fn wf(&self) -> bool {
        self@.distinct() && self@.patient()
    }

    /// A core that knows no device.
    pub fn new(now: u64) -> (r: Self)
        ensures
            r.wf(),
            r@ == CoreState::empty(now),
    {
        let r = Core {
            devices: Vec::new(),
            pending: Vec::new(),
            port_counter: FIRST_PORT,
            last_seen: None,
            received: None,
            complained_at: now,
        };
        assert(r@ =~= CoreState::empty(now));
        r
    }

    fn find(&self, w: &Wanted) -> (r: Option<usize>)
        ensures
            match r {
                Some(i) => first(self@.devices, w.query()) == Some(i as nat) && i
                    < self@.devices.len(),
                None => first(self@.devices, w.query()) is None,
            },
    {
        let ghost s = self@.devices;
        let mut i: usize = 0;
        assert(s.skip(0) =~= s);
        while i < self.devices.len()
            invariant
                i <= self.devices@.len(),
                s == self@.devices,
                s.len() == self.devices@.len(),
                first(s, w.query()) == match first(s.skip(i as int), w.query()) {
                    Some(k) => Some(k + i as nat),
                    None => None,
                },
            decreases self.devices@.len() - i,
        {
            assert(s.skip(i as int).first() == self.devices@[i as int]@);
            if w.fits(&self.devices[i]) {
                return Some(i);
            }
            assert(s.skip(i as int).skip(1) =~= s.skip(i + 1));
            i += 1;
        }
        None
    }

    /// The device at place `i` has been seen at the address `serial`.
    fn see(&mut self, i: usize, serial: &str, state: DeviceState) -> (r: u128)
        requires
            old(self).wf(),
            i < old(self)@.devices.len(),
        ensures
            final(self).wf(),
            final(self)@ == old(self)@.with_entry(
                i as nat,
                old(self)@.devices[i as int].seen(serial@, state@),
            ),
            r == old(self)@.devices[i as int].device.uuid,
    {
        let ghost before = self@;
        let kind = DeviceAddrKind::classify(serial);
        let identity = DeviceIdentity::from_addr(serial);
        let e = &self.devices[i];
        let mut known = e.device.identity.duplicate();
        known.merge(&identity);
        let better: bool = kind.priority() > DeviceAddrKind::classify(
            e.device.serial.as_str(),
        ).priority() && !contains_str(serial, "._tcp");
        let uuid: u128 = e.device.uuid;
        let updated = DeviceEntry {
            device: Device {
                uuid,
                id: copy_text(&e.device.id),
                serial: if better {
                    serial.to_owned()
                } else {
                    copy_text(&e.device.serial)
                },
                state,
                name: copy_text(&e.device.name),
                identity: known,
            },
            session: match &e.session {
                Some(h) => Some(copy_handle(h)),
                None => None,
            },
            config: e.config.duplicate(),
        };
        let ghost uv = updated@;
        assert(uv =~= before.devices[i as int].seen(serial@, state@));
        self.devices.set(i, updated);
        proof {
            assert(self@.devices =~= before.devices.update(i as int, uv));
            lemma_update_distinct(before, i as int, uv);
            assert(self@ =~= before.with_entry(i as nat, uv));
        }
        uuid
    }

    /// The arguments with which adb has to be asked who the device at `serial` is, where
    /// that is not known: it is connected, and no device is known by this address.
    pub fn wants_serial_number(&self, serial: &str, state: &DeviceState) -> (r: Option<Vec<String>>)
        ensures
            r is Some <==> state@ == crate::types::State::Device && first(
                self@.devices,
                Query::Addr(serial@),
            ) is None,
            r matches Some(args) ==> crate::text::string_views(args@) == seq![
                "-s"@,
                serial@,
                "shell"@,
                "getprop"@,
                "ro.serialno"@,
            ],
    {
        if !state.is_device() || self.find(&Wanted::Addr(serial)).is_some() {
            return None;
        }
        let r = vec![
            "-s".to_owned(),
            serial.to_owned(),
            "shell".to_owned(),
            "getprop".to_owned(),
            "ro.serialno".to_owned(),
        ];
        assert(crate::text::string_views(r@) =~= seq![
            "-s"@,
            serial@,
            "shell"@,
            "getprop"@,
            "ro.serialno"@,
        ]);
        Some(r)
    }

    /// A device is listed at the address `serial`; `reply` is what it answered to the
    /// question who it is, where it was asked and did. A device that is new gets the number
    /// `uuid`. The result is the number of the device.
    pub fn insert_device_as(
        &mut self,
        serial: &str,
        state: DeviceState,
        reply: Option<&[u8]>,
        uuid: u128,
    ) -> (r: u128)
        requires
            old(self).wf(),
        ensures
            final(self).wf(),
            (final(self)@, r) == old(self)@.inserted(
                serial@,
                state@,
                crate::session::deploy::output_view(reply),
                uuid,
            ),
    {
        match self.find(&Wanted::Addr(serial)) {
            Some(i) => {
                return self.see(i, serial, state);
            },
            None => {},
        }
        let id = if state.is_device() {
            match read_name(reply) {
                Some(id) => id,
                None => serial.to_owned(),
            }
        } else {
            serial.to_owned()
        };
        match self.find(&Wanted::Id(id.as_str())) {
            Some(i) => {
                return self.see(i, serial, state);
            },
            None => {},
        }
        let ghost before = self@;
        let entry = DeviceEntry {
            device: Device {
                uuid,
                id,
                serial: serial.to_owned(),
                state,
                name: String::new(),
                identity: DeviceIdentity::from_addr(serial),
            },
            session: None,
            config: SessionConfig::default(),
        };
        let ghost ev = entry@;
        assert(ev =~= Entry::fresh(uuid, id@, serial@, state@));
        match self.find(&Wanted::Uuid(uuid)) {
            Some(i) => {
                self.devices.set(i, entry);
                proof {
                    lemma_first(before.devices, Query::Uuid(uuid));
                    assert(self@.devices =~= before.devices.update(i as int, ev));
                    lemma_update_distinct(before, i as int, ev);
                    assert(self@ =~= before.with_entry(i as nat, ev));
                }
            },
            None => {
                self.devices.push(entry);
                proof {
                    lemma_first(before.devices, Query::Uuid(uuid));
                    assert(self@.devices =~= before.devices.push(ev));
                    assert forall|a: int, b: int| 0 <= a < b < self@.devices.len() implies (
                    #[trigger] self@.devices[a]).device.uuid != (
                    #[trigger] self@.devices[b]).device.uuid by {
                        if b < before.devices.len() {
                            assert(before.devices[a].device.uuid != before.devices[b].device.uuid);
                        } else {
                            assert(!Query::Uuid(uuid).fits(before.devices[a]));
                        }
                    }
                    assert(self@ =~= (CoreState { devices: before.devices.push(ev), ..before }));
                }
            },
        }
        uuid
    }

    /// A device is listed at the address `serial`. A device that is new gets a number that
    /// is drawn at random.
    pub fn insert_device(&mut self, serial: &str, state: DeviceState, reply: Option<&[u8]>) -> (r:
        u128)
        requires
            old(self).wf(),
        ensures
            final(self).wf(),
            exists|uuid: u128|
                #![trigger crate::types::is_random_uuid(uuid)]
                crate::types::is_random_uuid(uuid) && (final(self)@, r) == old(self)@.inserted(
                    serial@,
                    state@,
                    crate::session::deploy::output_view(reply),
                    uuid,
                ),
    {
        let uuid: u128 = new_uuid();
        self.insert_device_as(serial, state, reply, uuid)
    }
}

proof fn lemma_update_distinct(s: CoreState, i: int, e: Entry)
    requires
        s.distinct(),
        0 <= i < s.devices.len(),
        e.device.uuid == s.devices[i].device.uuid,
    ensures
        (CoreState { devices: s.devices.update(i, e), ..s }).distinct(),
{
    let t = CoreState { devices: s.devices.update(i, e), ..s };
    assert forall|a: int, b: int| 0 <= a < b < t.devices.len() implies (
    #[trigger] t.devices[a]).device.uuid != (#[trigger] t.devices[b]).device.uuid by {
        assert(s.devices[a].device.uuid != s.devices[b].device.uuid);
    }
}

impl Core {
    /// The address `addr` is waiting.
    fn waits(&self, addr: &str) -> (r: bool)
        ensures
            r == self@.awaits(addr@),
    {
        let ghost s = self@.pending;
        let mut i: usize = 0;
        while i < self.pending.len()
            invariant
                i <= self.pending@.len(),
                s == self@.pending,
                s.len() == self.pending@.len(),
                forall|j: int| 0 <= j < i ==> (#[trigger] s[j]).addr != addr@,
            decreases self.pending@.len() - i,
        {
            assert(s[i as int] == self.pending@[i as int]@);
            if same(self.pending[i].addr.as_str(), addr) {
                assert(s[i as int].addr == addr@);
                return true;
            }
            i += 1;
        }
        false
    }

    fn enqueue(&mut self, addr: String)
        requires
            old(self).wf(),
        ensures
            final(self).wf(),
            final(self)@ == old(self)@.queued(addr@),
    {
        let ghost before = self@;
        self.pending.push(PendingEntry { addr, attempts: 0 });
        assert(self@.pending =~= before.pending.push(Pending { addr: addr@, attempts: 0 }));
        assert(self@ =~= before.queued(addr@));
    }

    /// An address is taken out of the queue, wherever it stands in it.
    pub fn forget_pending(&mut self, addr: &str)
        requires
            old(self).wf(),
        ensures
            final(self).wf(),
            final(self)@ == old(self)@.unqueued(addr@),
    {
        let ghost before = self@;
        let ghost keep = |p: Pending| p.addr != addr@;
        let mut kept: Vec<PendingEntry> = Vec::new();
        let mut i: usize = 0;
        proof {
            reveal(Seq::filter);
            assert(before.pending.take(0) =~= Seq::empty());
            assert(pending_views(kept@) =~= Seq::empty());
        }
        while i < self.pending.len()
            invariant
                i <= self.pending@.len(),
                self@ == before,
                keep == (|p: Pending| p.addr != addr@),
                before.pending.len() == self.pending@.len(),
                before.patient(),
                pending_views(kept@) == before.pending.take(i as int).filter(keep),
                forall|j: int| 0 <= j < kept@.len() ==> (#[trigger] kept@[j])@.attempts < MAX_ATTEMPTS,
            decreases self.pending@.len() - i,
        {
            let ghost kept0 = kept@;
            proof {
                let t = before.pending.take(i + 1);
                assert(t.drop_last() =~= before.pending.take(i as int));
                assert(t.last() == self.pending@[i as int]@);
                reveal(Seq::filter);
            }
            assert(before.pending[i as int].attempts < MAX_ATTEMPTS);
            if !same(self.pending[i].addr.as_str(), addr) {
                kept.push(
                    PendingEntry {
                        addr: copy_text(&self.pending[i].addr),
                        attempts: self.pending[i].attempts,
                    },
                );
                assert(pending_views(kept@) =~= pending_views(kept0).push(before.pending[i as int]));
            }
            i += 1;
        }
        assert(before.pending.take(i as int) =~= before.pending);
        self.pending = kept;
        proof {
            assert(self@ =~= before.unqueued(addr@));
            assert forall|j: int| 0 <= j < self@.pending.len() implies (
            #[trigger] self@.pending[j]).attempts < MAX_ATTEMPTS by {
                assert(self@.pending[j] == self.pending@[j]@);
            }
        }
    }

    /// A phone that can be connected to was found. Its address joins the queue, unless it
    /// is there, under the address or under the name that the phone announced.
    pub fn on_connect_discovered(&mut self, host: &str, port: u16, fullname: &str)
        requires
            old(self).wf(),
        ensures
            final(self).wf(),
            final(self)@ == {
                let addr = crate::wireless_pair::address(host@, port);
                if old(self)@.awaits(announced_id(fullname@)) || old(self)@.awaits(addr) {
                    old(self)@
                } else {
                    old(self)@.queued(addr)
                }
            },
    {
        let addr = format_address(host, port);
        let name = crate::text::chars_of(fullname);
        let n: usize = crate::text::find_char(name.as_slice(), '.');
        let part = &name.as_slice()[0..n];
        assert(part@ =~= announced_id(fullname@));
        let id = crate::text::string_of(part);
        if !self.waits(id.as_str()) && !self.waits(addr.as_str()) {
            self.enqueue(addr);
        }
    }

    /// A text came from a phone. It is to be written to the desktop's clipboard, unless it
    /// is what came last, or what is there: so that it does not go round in circles.
    pub fn on_phone_clipboard(&mut self, text: String) -> (r: Option<String>)
        requires
            old(self).wf(),
        ensures
            final(self).wf(),
            final(self)@ == old(self)@.heard(text@).0,
            crate::text::string_view(r) == if old(self)@.heard(text@).1 {
                Some(text@)
            } else {
                None
            },
    {
        if holds(&self.received, text.as_str()) || holds(&self.last_seen, text.as_str()) {
            return None;
        }
        let ghost before = self@;
        self.received = Some(copy_text(&text));
        self.last_seen = Some(copy_text(&text));
        assert(self@ =~= (CoreState {
            received: Some(text@),
            last_seen: Some(text@),
            ..before
        }));
        Some(text)
    }

    /// The desktop's clipboard was looked at: it holds a text, or could not be read
    /// (`None`). A text that is new and did not come from a phone goes to the phones. That
    /// the clipboard cannot be read is to be complained of once in a while.
    pub fn poll_system_clipboard(&mut self, text: Option<String>, now: u64) -> (r: ClipboardStep)
        requires
            old(self).wf(),
        ensures
            final(self).wf(),
            match text {
                Some(t) => {
                    &&& final(self)@ == old(self)@.copied(t@, now).0
                    &&& if old(self)@.copied(t@, now).1 {
                        r matches ClipboardStep::Broadcast(s) && s@ == t@
                    } else {
                        r is Nothing
                    }
                },
                None => {
                    &&& final(self)@ == old(self)@.unreadable(now).0
                    &&& if old(self)@.unreadable(now).1 {
                        r is Complain
                    } else {
                        r is Nothing
                    }
                },
            },
    {
        let ghost before = self@;
        match text {
            Some(t) => {
                if holds(&self.last_seen, t.as_str()) {
                    return ClipboardStep::Nothing;
                }
                self.last_seen = Some(copy_text(&t));
                self.complained_at = now;
                assert(self@ =~= (CoreState {
                    last_seen: Some(t@),
                    complained_at: now,
                    ..before
                }));
                if holds(&self.received, t.as_str()) {
                    ClipboardStep::Nothing
                } else {
                    ClipboardStep::Broadcast(t)
                }
            },
            None => {
                if elapsed_since(now, self.complained_at) >= CLIPBOARD_ERROR_INTERVAL {
                    self.complained_at = now;
                    assert(self@ =~= (CoreState { complained_at: now, ..before }));
                    ClipboardStep::Complain
                } else {
                    ClipboardStep::Nothing
                }
            },
        }
    }

    /// Takes the address whose turn it is out of the queue. It is to be connected to,
    /// unless adb lists it already, or it is no address of the network.
    pub fn try_connect_pending(&mut self, adb_devices: &DeviceMap) -> (r: Option<Attempt>)
        requires
            old(self).wf(),
        ensures
            final(self).wf(),
            old(self)@.pending.len() == 0 ==> r is None && final(self)@ == old(self)@,
            old(self)@.pending.len() > 0 ==> {
                let p = old(self)@.pending[0];
                &&& final(self)@ == old(self)@.taken()
                &&& if crate::device_map::place_of(adb_devices@, p.addr) is Some
                    || crate::types::addr_kind(p.addr) == DeviceAddrKind::Usb {
                    r is None
                } else {
                    r matches Some(a) && a.addr@ == p.addr && a.attempts == p.attempts
                        && a.attempts < MAX_ATTEMPTS
                }
            },
    {
        if self.pending.len() == 0 {
            return None;
        }
        let ghost before = self@;
        let p = self.pending.remove(0);
        proof {
            assert(before.pending[0].attempts < MAX_ATTEMPTS);
            assert(self@.pending =~= before.pending.skip(1));
            assert(self@ =~= (CoreState { pending: before.pending.skip(1), ..before }));
        }
        if adb_devices.contains_key(p.addr.as_str()) {
            return None;
        }
        if DeviceAddrKind::classify(p.addr.as_str()) == DeviceAddrKind::Usb {
            return None;
        }
        Some(Attempt { addr: p.addr, attempts: p.attempts })
    }

    /// An address could not be connected to. It goes to the end of the queue, until it has
    /// failed too often.
    pub fn on_connect_failed(&mut self, attempt: Attempt)
        requires
            old(self).wf(),
            attempt.attempts < MAX_ATTEMPTS,
        ensures
            final(self).wf(),
            final(self)@ == old(self)@.failed(
                Pending { addr: attempt.addr@, attempts: attempt.attempts },
            ),
    {
        let ghost before = self@;
        let attempts: u8 = attempt.attempts + 1;
        if attempts < MAX_ATTEMPTS {
            self.pending.push(PendingEntry { addr: attempt.addr, attempts });
            assert(self@.pending =~= before.pending.push(
                Pending { addr: attempt.addr@, attempts },
            ));
            assert(self@ =~= (CoreState { pending: self@.pending, ..before }));
        }
    }

    /// A phone has told its name.
    pub fn set_device_name(&mut self, serial: &str, name: &str)
        requires
            old(self).wf(),
        ensures
            final(self).wf(),
            final(self)@ == match first(old(self)@.devices, Query::Serial(serial@)) {
                Some(i) => old(self)@.with_entry(
                    i,
                    Entry {
                        device: crate::types::DeviceView {
                            name: name@,
                            ..old(self)@.devices[i as int].device
                        },
                        ..old(self)@.devices[i as int]
                    },
                ),
                None => old(self)@,
            },
    {
        match self.find(&Wanted::Serial(serial)) {
            Some(i) => {
                let ghost before = self@;
                let e = &self.devices[i];
                let mut device = e.device.duplicate();
                device.name = name.to_owned();
                let updated = DeviceEntry {
                    device,
                    session: match &e.session {
                        Some(h) => Some(copy_handle(h)),
                        None => None,
                    },
                    config: e.config.duplicate(),
                };
                let ghost uv = updated@;
                assert(uv.device =~= (crate::types::DeviceView {
                    name: name@,
                    ..before.devices[i as int].device
                }));
                self.replace(i, updated);
            },
            None => {},
        }
    }

    /// Puts `e` in place of the device at `i`, which has the same number.
    fn replace(&mut self, i: usize, e: DeviceEntry)
        requires
            old(self).wf(),
            i < old(self)@.devices.len(),
            e@.device.uuid == old(self)@.devices[i as int].device.uuid,
        ensures
            final(self).wf(),
            final(self)@ == old(self)@.with_entry(i as nat, e@),
    {
        let ghost before = self@;
        let ghost ev = e@;
        self.devices.set(i, e);
        proof {
            assert(self@.devices =~= before.devices.update(i as int, ev));
            lemma_update_distinct(before, i as int, ev);
            assert(self@ =~= before.with_entry(i as nat, ev));
        }
    }

    /// The session at place `i` is taken away; the order to stop it.
    fn take_session(&mut self, i: usize) -> (r: Option<StopOrder>)
        requires
            old(self).wf(),
            i < old(self)@.devices.len(),
        ensures
            final(self).wf(),
            final(self)@ == old(self)@.without_session(i as nat),
            stop_view(r) == old(self)@.stop_of(i as nat),
    {
        let e = &self.devices[i];
        let r = match &e.session {
            Some(h) => Some(
                StopOrder {
                    uuid: e.device.uuid,
                    serial: copy_text(&e.device.serial),
                    port: h.port,
                },
            ),
            None => None,
        };
        let updated = DeviceEntry {
            device: e.device.duplicate(),
            session: None,
            config: e.config.duplicate(),
        };
        assert(updated@ =~= (Entry { session: None, ..self@.devices[i as int] }));
        self.replace(i, updated);
        r
    }

    /// Starts a session for the device at place `i`, unless it has one.
    fn start_at(&mut self, i: usize) -> (r: Option<StartOrder>)
        requires
            old(self).wf(),
            i < old(self)@.devices.len(),
            old(self)@.port_counter < u16::MAX || old(self)@.devices[i as int].session is Some,
        ensures
            final(self).wf(),
            (final(self)@, start_view(r)) == old(self)@.started(i as nat),
    {
        if self.devices[i].session.is_some() {
            return None;
        }
        let ghost before = self@;
        let port: u16 = self.port_counter;
        let e = &self.devices[i];
        let config = e.config.duplicate();
        let order = StartOrder { device: e.device.duplicate(), port, config: e.config.duplicate() };
        let handle = Handle {
            port,
            clipboard_enabled: config.clipboard_sync,
            notification_enabled: config.notification_sync,
            audio_enabled: config.audio_enabled,
            volume: config.volume,
            session_state: SESSION_STATE_CONNECTING,
            audio_latency: 0,
        };
        let updated = DeviceEntry { device: e.device.duplicate(), session: Some(handle), config };
        let ghost uv = updated@;
        assert(uv =~= (Entry {
            session: Some(new_handle(port, before.devices[i as int].config)),
            ..before.devices[i as int]
        }));
        self.replace(i, updated);
        self.port_counter = port + 1;
        proof {
            assert(self@.devices == before.devices.update(i as int, uv));
            assert(self@ =~= before.started(i as nat).0);
            assert(order@ =~= before.started(i as nat).1.unwrap());
        }
        Some(order)
    }
}

/// The name that a phone announces itself under, up to its first dot.
pub open spec fn announced_id(fullname: Seq<char>) -> Seq<char> {
    fullname.take(crate::text::find(fullname, '.') as int)
}

/// What is to be done with the desktop's clipboard.
pub enum ClipboardStep {
    Nothing,
    /// The text goes to the phones.
    Broadcast(String),
    /// The clipboard cannot be read, and that is said.
    Complain,
}

/// An address that is to be connected to, and how often that has failed.
#[derive(Debug)]
pub struct Attempt {
    pub addr: String,
    pub attempts: u8,
}

/// Sessions that are to be stopped, and sessions that are to be started after that.
#[derive(Debug)]
pub struct Orders {
    pub stop: Vec<StopOrder>,
    pub start: Vec<StartOrder>,
}

/// The list that holds `o`, where there is one.
pub open spec fn listed<T>(o: Option<T>) -> Seq<T> {
    match o {
        Some(x) => seq![x],
        None => Seq::empty(),
    }
}

impl Entry {
    /// The user has chosen something else. A session that runs takes it over, but for the
    /// audio switch.
    pub open spec fn configured(
        self,
        clipboard_sync: bool,
        notification_sync: bool,
        audio_sync: bool,
        volume: u16,
    ) -> Entry {
        Entry {
            config: crate::session::config::Choice {
                clipboard_sync,
                notification_sync,
                audio_enabled: audio_sync,
                volume,
                audio_codec: self.config.audio_codec,
            },
            session: match self.session {
                Some(h) => Some(
                    Handle {
                        clipboard_enabled: clipboard_sync,
                        notification_enabled: notification_sync,
                        volume,
                        ..h
                    },
                ),
                None => None,
            },
            ..self
        }
    }

    /// The audio switch is set to `audio_sync`, and a session runs that was started with
    /// another setting: it has to be started anew.
    pub open spec fn outdated(self, audio_sync: bool) -> bool {
        self.session matches Some(h) && (self.config.audio_enabled != audio_sync
            || h.audio_enabled != audio_sync)
    }

    /// The session has ended by itself: it stays, as one that has failed.
    pub open spec fn buried(self) -> Entry {
        match self.session {
            Some(h) if h.session_state != SESSION_STATE_STOPPED => Entry {
                session: Some(Handle { session_state: SESSION_STATE_FAILED, ..h }),
                ..self
            },
            _ => self,
        }
    }
}

/// adb lists the device at `serial`, and it is connected.
pub open spec fn online(adb: Seq<crate::types::DeviceView>, serial: Seq<char>) -> bool {
    crate::device_map::place_of(adb, serial) matches Some(k) && adb[k as int].state
        == crate::types::State::Device
}

impl CoreState {
    /// The session of device `i` is stopped and another one is started.
    pub open spec fn restarted(self, i: nat) -> (CoreState, Seq<Stop>, Seq<Start>) {
        let (t, start) = self.without_session(i).started(i);
        (t, listed(self.stop_of(i)), listed(start))
    }

    /// What a command changes, and which sessions it stops and starts. The list of a
    /// device's applications, and the window of one, are no business of this.
    pub open spec fn commanded(self, cmd: CommandView, adb: Seq<crate::types::DeviceView>) -> (
        CoreState,
        Seq<Stop>,
        Seq<Start>,
    ) {
        match cmd {
            CommandView::Connect(addr) => if crate::types::addr_kind(addr) != DeviceAddrKind::Usb
                && !self.awaits(addr) {
                (self.queued(addr), Seq::empty(), Seq::empty())
            } else {
                (self, Seq::empty(), Seq::empty())
            },
            CommandView::Disconnect(serial) => match first(self.devices, Query::AnyRunning(serial)) {
                Some(i) => (
                    self.without_session(i).unqueued(serial),
                    listed(self.stop_of(i)),
                    Seq::empty(),
                ),
                None => (self.unqueued(serial), Seq::empty(), Seq::empty()),
            },
            CommandView::Retry(uuid) => match first(self.devices, Query::Uuid(uuid)) {
                Some(i) => match self.devices[i as int].session {
                    Some(h) if h.session_state == SESSION_STATE_FAILED => if online(
                        adb,
                        self.devices[i as int].device.serial,
                    ) {
                        self.restarted(i)
                    } else {
                        (self.without_session(i), listed(self.stop_of(i)), Seq::empty())
                    },
                    _ => (self, Seq::empty(), Seq::empty()),
                },
                None => (self, Seq::empty(), Seq::empty()),
            },
            CommandView::UpdateConfig { uuid, clipboard_sync, notification_sync, audio_sync, volume } =>
            match first(self.devices, Query::Uuid(uuid)) {
                Some(i) => {
                    let e = self.devices[i as int];
                    let t = self.with_entry(
                        i,
                        e.configured(clipboard_sync, notification_sync, audio_sync, volume),
                    );
                    if e.outdated(audio_sync) {
                        t.restarted(i)
                    } else {
                        (t, Seq::empty(), Seq::empty())
                    }
                },
                None => (self, Seq::empty(), Seq::empty()),
            },
            CommandView::StartSession(serial) => match first(self.devices, Query::Any(serial)) {
                Some(i) => (self.started(i).0, Seq::empty(), listed(self.started(i).1)),
                None => (self, Seq::empty(), Seq::empty()),
            },
            CommandView::RestartAllSessions => self.all_restarted(self.devices.len()),
            CommandView::ListApps { .. } => (self, Seq::empty(), Seq::empty()),
            CommandView::OpenApp { .. } => (self, Seq::empty(), Seq::empty()),
        }
    }

    /// How many ports a command may take.
    pub open spec fn ports_for(self, cmd: CommandView, adb: Seq<crate::types::DeviceView>) -> nat {
        match cmd {
            CommandView::RestartAllSessions => self.devices.len(),
            _ => self.commanded(cmd, adb).2.len(),
        }
    }

    /// The sessions of the first `n` devices are stopped and started again.
    pub open spec fn all_restarted(self, n: nat) -> (CoreState, Seq<Stop>, Seq<Start>)
        decreases n,
    {
        if n == 0 {
            (self, Seq::empty(), Seq::empty())
        } else {
            let (s, stops, starts) = self.all_restarted((n - 1) as nat);
            let i = (n - 1) as nat;
            if s.devices[i as int].session is Some {
                let (t, a, b) = s.restarted(i);
                (t, stops + a, starts + b)
            } else {
                (s, stops, starts)
            }
        }
    }

    /// Sessions are started for those of the first `n` devices that have none, that adb
    /// lists as connected, and whose address is of this rank.
    pub open spec fn rank_started(
        self,
        adb: Seq<crate::types::DeviceView>,
        rank: u8,
        n: nat,
    ) -> (CoreState, Seq<Start>)
        decreases n,
    {
        if n == 0 {
            (self, Seq::empty())
        } else {
            let (s, starts) = self.rank_started(adb, rank, (n - 1) as nat);
            let i = (n - 1) as nat;
            let e = s.devices[i as int];
            if e.session is None && crate::types::addr_kind(e.device.serial).rank() == rank
                && online(adb, e.device.serial) {
                let (t, start) = s.started(i);
                (t, starts + listed(start))
            } else {
                (s, starts)
            }
        }
    }

    /// Sessions are stopped for those of the first `n` devices that adb no longer lists.
    pub open spec fn gone_stopped(self, adb: Seq<crate::types::DeviceView>, n: nat) -> (
        CoreState,
        Seq<Stop>,
    )
        decreases n,
    {
        if n == 0 {
            (self, Seq::empty())
        } else {
            let (s, stops) = self.gone_stopped(adb, (n - 1) as nat);
            let i = (n - 1) as nat;
            let e = s.devices[i as int];
            if e.session is Some && crate::device_map::place_of(adb, e.device.serial) is None {
                (s.without_session(i), stops + listed(s.stop_of(i)))
            } else {
                (s, stops)
            }
        }
    }

    /// Sessions follow what adb lists: first those on a cable are started, then those with
    /// a service name, then the others; then those whose device is gone are stopped.
    pub open spec fn synced(self, adb: Seq<crate::types::DeviceView>) -> (
        CoreState,
        Seq<Start>,
        Seq<Stop>,
    ) {
        let n = self.devices.len();
        let (a, x) = self.rank_started(adb, 3, n);
        let (b, y) = a.rank_started(adb, 2, n);
        let (c, z) = b.rank_started(adb, 1, n);
        let (d, stops) = c.gone_stopped(adb, n);
        (d, x + y + z, stops)
    }
}

proof fn lemma_restarted_shape(s: CoreState, n: nat)
    requires
        s.distinct(),
        n <= s.devices.len(),
        s.port_counter + n <= u16::MAX,
    ensures
        s.all_restarted(n).0.devices.len() == s.devices.len(),
        s.all_restarted(n).0.port_counter <= s.port_counter + n,
        s.all_restarted(n).0.pending == s.pending,
        s.all_restarted(n).0.distinct(),
    decreases n,
{
    if n > 0 {
        lemma_restarted_shape(s, (n - 1) as nat);
        let t = s.all_restarted((n - 1) as nat).0;
        let i = n - 1;
        if t.devices[i].session is Some {
            let e = Entry { session: None, ..t.devices[i] };
            lemma_update_distinct(t, i, e);
            let u = t.without_session(i as nat);
            lemma_update_distinct(u, i, u.started(i as nat).0.devices[i]);
        }
    }
}

/// How many devices have no session.
pub open spec fn idle(s: Seq<Entry>) -> nat
    decreases s.len(),
{
    if s.len() == 0 {
        0
    } else {
        idle(s.drop_last()) + if s.last().session is None {
            1nat
        } else {
            0nat
        }
    }
}

proof fn lemma_idle_some(s: Seq<Entry>, i: int)
    requires
        0 <= i < s.len(),
        s[i].session is None,
    ensures
        idle(s) >= 1,
    decreases s.len(),
{
    if i < s.len() - 1 {
        lemma_idle_some(s.drop_last(), i);
    }
}

proof fn lemma_idle_update(s: Seq<Entry>, i: int, e: Entry)
    requires
        0 <= i < s.len(),
        s[i].session is None,
        e.session is Some,
    ensures
        idle(s.update(i, e)) + 1 == idle(s),
    decreases s.len(),
{
    if i == s.len() - 1 {
        assert(s.update(i, e).drop_last() =~= s.drop_last());
    } else {
        lemma_idle_update(s.drop_last(), i, e);
        assert(s.update(i, e).drop_last() =~= s.drop_last().update(i, e));
    }
}

/// Starting sessions changes no device, takes one port for each, and never takes a session
/// away.
proof fn lemma_rank_shape(s: CoreState, adb: Seq<crate::types::DeviceView>, rank: u8, n: nat)
    requires
        s.distinct(),
        n <= s.devices.len(),
        s.port_counter + idle(s.devices) <= u16::MAX,
    ensures
        ({
            let t = s.rank_started(adb, rank, n).0;
            &&& t.devices.len() == s.devices.len()
            &&& t.port_counter + idle(t.devices) == s.port_counter + idle(s.devices)
            &&& t.pending == s.pending
            &&& t.distinct()
            &&& forall|k: int|
                0 <= k < n ==> (#[trigger] t.devices[k]).device == s.devices[k].device && (
                t.devices[k].session is Some <==> s.devices[k].session is Some || (
                crate::types::addr_kind(s.devices[k].device.serial).rank() == rank && online(
                    adb,
                    s.devices[k].device.serial,
                )))
            &&& forall|k: int|
                0 <= k < s.devices.len() && (n <= k || s.devices[k].session is Some) ==> #[trigger] t.devices[k]
                    == s.devices[k]
        }),
    decreases n,
{
    if n > 0 {
        lemma_rank_shape(s, adb, rank, (n - 1) as nat);
        let t = s.rank_started(adb, rank, (n - 1) as nat).0;
        let i = n - 1;
        let e = t.devices[i];
        if e.session is None && crate::types::addr_kind(e.device.serial).rank() == rank && online(
            adb,
            e.device.serial,
        ) {
            let u = t.started(i as nat).0;
            lemma_update_distinct(t, i, u.devices[i]);
            lemma_idle_update(t.devices, i, u.devices[i]);
        }
    }
}

/// Stopping sessions changes no device and takes those sessions away whose device is gone.
proof fn lemma_gone_shape(s: CoreState, adb: Seq<crate::types::DeviceView>, n: nat)
    requires
        n <= s.devices.len(),
    ensures
        ({
            let t = s.gone_stopped(adb, n).0;
            &&& t.devices.len() == s.devices.len()
            &&& forall|k: int|
                0 <= k < n ==> (#[trigger] t.devices[k]).device == s.devices[k].device && (
                t.devices[k].session is Some <==> s.devices[k].session is Some
                    && crate::device_map::place_of(adb, s.devices[k].device.serial) is Some)
            &&& forall|k: int|
                0 <= k < s.devices.len() && (n <= k || crate::device_map::place_of(
                    adb,
                    s.devices[k].device.serial,
                ) is Some) ==> #[trigger] t.devices[k] == s.devices[k]
        }),
    decreases n,
{
    if n > 0 {
        lemma_gone_shape(s, adb, (n - 1) as nat);
    }
}

impl Core {
    fn stop_and_start(&mut self, i: usize) -> (r: Orders)
        requires
            old(self).wf(),
            i < old(self)@.devices.len(),
            old(self)@.port_counter < u16::MAX,
        ensures
            final(self).wf(),
            (final(self)@, stop_views(r.stop@), start_views(r.start@)) == old(self)@.restarted(
                i as nat,
            ),
    {
        let stop = self.take_session(i);
        let start = self.start_at(i);
        Orders { stop: one_stop(stop), start: one_start(start) }
    }

    fn get_online(adb: &DeviceMap, serial: &str) -> (r: bool)
        ensures
            r == online(adb@, serial@),
    {
        match adb.get(serial) {
            Some(d) => d.state.is_device(),
            None => false,
        }
    }

    fn configure(
        &mut self,
        i: usize,
        clipboard_sync: bool,
        notification_sync: bool,
        audio_sync: bool,
        volume: u16,
    ) -> (restart: bool)
        requires
            old(self).wf(),
            i < old(self)@.devices.len(),
        ensures
            final(self).wf(),
            final(self)@ == old(self)@.with_entry(
                i as nat,
                old(self)@.devices[i as int].configured(
                    clipboard_sync,
                    notification_sync,
                    audio_sync,
                    volume,
                ),
            ),
            restart == old(self)@.devices[i as int].outdated(audio_sync),
    {
        let ghost before = self@;
        let e = &self.devices[i];
        let changed: bool = e.config.audio_enabled != audio_sync;
        let session = match &e.session {
            Some(h) => Some(
                Handle {
                    port: h.port,
                    clipboard_enabled: clipboard_sync,
                    notification_enabled: notification_sync,
                    audio_enabled: h.audio_enabled,
                    volume,
                    session_state: h.session_state,
                    audio_latency: h.audio_latency,
                },
            ),
            None => None,
        };
        let restart: bool = match &session {
            Some(h) => changed || h.audio_enabled != audio_sync,
            None => false,
        };
        let updated = DeviceEntry {
            device: e.device.duplicate(),
            session,
            config: SessionConfig {
                clipboard_sync,
                notification_sync,
                audio_enabled: audio_sync,
                volume,
                audio_codec: copy_text(&e.config.audio_codec),
            },
        };
        assert(updated@ =~= before.devices[i as int].configured(
            clipboard_sync,
            notification_sync,
            audio_sync,
            volume,
        ));
        self.replace(i, updated);
        restart
    }

    fn restart_all(&mut self) -> (r: Orders)
        requires
            old(self).wf(),
            old(self)@.port_counter + old(self)@.devices.len() <= u16::MAX,
        ensures
            final(self).wf(),
            (final(self)@, stop_views(r.stop@), start_views(r.start@)) == old(
                self,
            )@.all_restarted(old(self)@.devices.len()),
    {
        let ghost s = self@;
        let n: usize = self.devices.len();
        let mut r = Orders { stop: Vec::new(), start: Vec::new() };
        let mut i: usize = 0;
        proof {
            assert(stop_views(r.stop@) =~= Seq::empty());
            assert(start_views(r.start@) =~= Seq::empty());
        }
        while i < n
            invariant
                i <= n,
                n == s.devices.len(),
                s.distinct(),
                s.port_counter + s.devices.len() <= u16::MAX,
                self.wf(),
                self@ == s.all_restarted(i as nat).0,
                stop_views(r.stop@) == s.all_restarted(i as nat).1,
                start_views(r.start@) == s.all_restarted(i as nat).2,
            decreases n - i,
        {
            proof {
                lemma_restarted_shape(s, i as nat);
                lemma_restarted_shape(s, (i + 1) as nat);
            }
            assert(self@.devices[i as int] == self.devices@[i as int]@);
            if self.devices[i].session.is_some() {
                let o = self.stop_and_start(i);
                let ghost a = r.stop@;
                let ghost b = r.start@;
                append_stops(&mut r.stop, o.stop);
                append_starts(&mut r.start, o.start);
            }
            i += 1;
        }
        r
    }

    /// Carries out a command; `adb` is what adb lists. The result says which sessions are
    /// to be stopped and then started.
    pub fn on_command(&mut self, cmd: Command, adb: &DeviceMap) -> (r: Orders)
        requires
            old(self).wf(),
            old(self)@.port_counter + old(self)@.ports_for(cmd@, adb@) <= u16::MAX,
        ensures
            final(self).wf(),
            (final(self)@, stop_views(r.stop@), start_views(r.start@)) == old(self)@.commanded(
                cmd@,
                adb@,
            ),
    {
        let ghost s = self@;
        match cmd {
            Command::Connect(addr) => {
                if DeviceAddrKind::classify(addr.as_str()) != DeviceAddrKind::Usb && !self.waits(
                    addr.as_str(),
                ) {
                    self.enqueue(addr);
                }
                no_orders()
            },
            Command::Disconnect(serial) => {
                let stop = match self.find(&Wanted::AnyRunning(serial.as_str())) {
                    Some(i) => self.take_session(i),
                    None => None,
                };
                self.forget_pending(serial.as_str());
                Orders { stop: one_stop(stop), start: one_start(None) }
            },
            Command::Retry(uuid) => {
                let i: usize = match self.find(&Wanted::Uuid(uuid)) {
                    Some(i) => i,
                    None => {
                        return no_orders();
                    },
                };
                assert(self@.devices[i as int] == self.devices@[i as int]@);
                let failed: bool = match &self.devices[i].session {
                    Some(h) => h.is_failed(),
                    None => false,
                };
                if !failed {
                    return no_orders();
                }
                if Self::get_online(adb, self.devices[i].device.serial.as_str()) {
                    self.stop_and_start(i)
                } else {
                    let stop = self.take_session(i);
                    Orders { stop: one_stop(stop), start: one_start(None) }
                }
            },
            Command::UpdateConfig { uuid, clipboard_sync, notification_sync, audio_sync, volume } => {
                let i: usize = match self.find(&Wanted::Uuid(uuid)) {
                    Some(i) => i,
                    None => {
                        return no_orders();
                    },
                };
                if self.configure(i, clipboard_sync, notification_sync, audio_sync, volume) {
                    self.stop_and_start(i)
                } else {
                    no_orders()
                }
            },
            Command::StartSession(serial) => match self.find(&Wanted::Any(serial.as_str())) {
                Some(i) => {
                    let start = self.start_at(i);
                    Orders { stop: one_stop(None), start: one_start(start) }
                },
                None => no_orders(),
            },
            Command::RestartAllSessions => self.restart_all(),
            Command::ListApps { uuid: _, force: _ } => no_orders(),
            Command::OpenApp { uuid: _, package_name: _ } => no_orders(),
        }
    }

    fn start_rank(&mut self, adb: &DeviceMap, rank: u8, starts: &mut Vec<StartOrder>)
        requires
            old(self).wf(),
            old(self)@.port_counter + idle(old(self)@.devices) <= u16::MAX,
        ensures
            final(self).wf(),
            final(self)@ == old(self)@.rank_started(adb@, rank, old(self)@.devices.len()).0,
            start_views(final(starts)@) == start_views(old(starts)@) + old(self)@.rank_started(
                adb@,
                rank,
                old(self)@.devices.len(),
            ).1,
    {
        let ghost s = self@;
        let ghost had = start_views(starts@);
        let n: usize = self.devices.len();
        let mut i: usize = 0;
        assert(had + Seq::<Start>::empty() =~= had);
        while i < n
            invariant
                i <= n,
                n == s.devices.len(),
                s.distinct(),
                s.port_counter + idle(s.devices) <= u16::MAX,
                self.wf(),
                self@ == s.rank_started(adb@, rank, i as nat).0,
                start_views(starts@) == had + s.rank_started(adb@, rank, i as nat).1,
            decreases n - i,
        {
            proof {
                lemma_rank_shape(s, adb@, rank, i as nat);
            }
            assert(self@.devices[i as int] == self.devices@[i as int]@);
            let e = &self.devices[i];
            if e.session.is_none() && DeviceAddrKind::classify(e.device.serial.as_str()).priority()
                == rank && Self::get_online(adb, e.device.serial.as_str()) {
                proof {
                    lemma_idle_some(self@.devices, i as int);
                }
                let start = self.start_at(i);
                let ghost before = starts@;
                let ghost done = s.rank_started(adb@, rank, i as nat).1;
                let more = one_start(start);
                append_starts(starts, more);
                assert(had + (done + listed(start_view(start))) =~= (had + done) + listed(
                    start_view(start),
                ));
            }
            i += 1;
        }
    }

    fn stop_gone(&mut self, adb: &DeviceMap) -> (r: Vec<StopOrder>)
        requires
            old(self).wf(),
        ensures
            final(self).wf(),
            (final(self)@, stop_views(r@)) == old(self)@.gone_stopped(
                adb@,
                old(self)@.devices.len(),
            ),
    {
        let ghost s = self@;
        let n: usize = self.devices.len();
        let mut r: Vec<StopOrder> = Vec::new();
        let mut i: usize = 0;
        assert(stop_views(r@) =~= Seq::empty());
        while i < n
            invariant
                i <= n,
                n == s.devices.len(),
                self.wf(),
                self@.devices.len() == n,
                self@ == s.gone_stopped(adb@, i as nat).0,
                stop_views(r@) == s.gone_stopped(adb@, i as nat).1,
            decreases n - i,
        {
            assert(self@.devices[i as int] == self.devices@[i as int]@);
            let e = &self.devices[i];
            if e.session.is_some() && !adb.contains_key(e.device.serial.as_str()) {
                let stop = self.take_session(i);
                let more = one_stop(stop);
                append_stops(&mut r, more);
            }
            i += 1;
        }
        r
    }

    /// Brings the sessions in line with what adb lists. A device that is connected and has
    /// no session gets one; a session whose device adb no longer lists is stopped. One that
    /// has failed stays, so that it is not started over and over.
    pub fn sync_sessions(&mut self, adb: &DeviceMap) -> (r: Orders)
        requires
            old(self).wf(),
            old(self)@.port_counter + idle(old(self)@.devices) <= u16::MAX,
        ensures
            final(self).wf(),
            (final(self)@, start_views(r.start@), stop_views(r.stop@)) == old(self)@.synced(adb@),
    {
        let ghost s = self@;
        let ghost n = s.devices.len();
        let mut starts: Vec<StartOrder> = Vec::new();
        proof {
            assert(start_views(starts@) =~= Seq::empty());
            lemma_rank_shape(s, adb@, 3, n);
            let a = s.rank_started(adb@, 3, n).0;
            lemma_rank_shape(a, adb@, 2, n);
            let b = a.rank_started(adb@, 2, n).0;
            lemma_rank_shape(b, adb@, 1, n);
        }
        self.start_rank(adb, 3, &mut starts);
        self.start_rank(adb, 2, &mut starts);
        self.start_rank(adb, 1, &mut starts);
        proof {
            let (a, x) = s.rank_started(adb@, 3, n);
            let (b, y) = a.rank_started(adb@, 2, n);
            let (c, z) = b.rank_started(adb@, 1, n);
            assert(start_views(starts@) =~= x + y + z);
        }
        let stop = self.stop_gone(adb);
        Orders { stop, start: starts }
    }

    /// The tasks of these devices' sessions have ended. A session that was not stopped has
    /// failed, and stays as such: it can be seen, and tried again.
    pub fn check_dead_sessions(&mut self, finished: &[u128])
        requires
            old(self).wf(),
        ensures
            final(self).wf(),
            final(self)@ == (CoreState {
                devices: old(self)@.devices.map_values(
                    |e: Entry|
                        if finished@.contains(e.device.uuid) {
                            e.buried()
                        } else {
                            e
                        },
                ),
                ..old(self)@
            }),
    {
        let ghost s = self@;
        let ghost f = |e: Entry|
            if finished@.contains(e.device.uuid) {
                e.buried()
            } else {
                e
            };
        let n: usize = self.devices.len();
        let mut i: usize = 0;
        while i < n
            invariant
                i <= n,
                n == s.devices.len(),
                self.wf(),
                f == (|e: Entry|
                    if finished@.contains(e.device.uuid) {
                        e.buried()
                    } else {
                        e
                    }),
                self@.devices.len() == n,
                self@.pending == s.pending,
                self@ == (CoreState { devices: self@.devices, ..s }),
                forall|j: int| 0 <= j < i ==> #[trigger] self@.devices[j] == f(s.devices[j]),
                forall|j: int| i <= j < n ==> #[trigger] self@.devices[j] == s.devices[j],
            decreases n - i,
        {
            let ghost before = self@;
            assert(self@.devices[i as int] == self.devices@[i as int]@);
            let e = &self.devices[i];
            if holds_uuid(finished, e.device.uuid) {
                let session = match &e.session {
                    Some(h) => {
                        let mut h2 = copy_handle(h);
                        if h2.state() != SESSION_STATE_STOPPED {
                            h2.set_state(SESSION_STATE_FAILED);
                        }
                        Some(h2)
                    },
                    None => None,
                };
                let updated = DeviceEntry {
                    device: e.device.duplicate(),
                    session,
                    config: e.config.duplicate(),
                };
                assert(updated@ =~= before.devices[i as int].buried());
                self.replace(i, updated);
            }
            i += 1;
        }
        assert(self@.devices =~= s.devices.map_values(f));
    }

    /// A session reports how it stands.
    pub fn report_session(&mut self, uuid: u128, session_state: u8, audio_latency: u64)
        requires
            old(self).wf(),
        ensures
            final(self).wf(),
            final(self)@ == match first(old(self)@.devices, Query::Uuid(uuid)) {
                Some(i) => match old(self)@.devices[i as int].session {
                    Some(h) => old(self)@.with_entry(
                        i,
                        Entry {
                            session: Some(Handle { session_state, audio_latency, ..h }),
                            ..old(self)@.devices[i as int]
                        },
                    ),
                    None => old(self)@,
                },
                None => old(self)@,
            },
    {
        match self.find(&Wanted::Uuid(uuid)) {
            Some(i) => {
                assert(self@.devices[i as int] == self.devices@[i as int]@);
                let e = &self.devices[i];
                match &e.session {
                    Some(h) => {
                        let mut h2 = copy_handle(h);
                        h2.session_state = session_state;
                        h2.audio_latency = audio_latency;
                        let updated = DeviceEntry {
                            device: e.device.duplicate(),
                            session: Some(h2),
                            config: e.config.duplicate(),
                        };
                        assert(updated@ =~= (Entry { session: Some(h2), ..self@.devices[i as int] }));
                        self.replace(i, updated);
                    },
                    None => {},
                }
            },
            None => {},
        }
    }

    /// What is told of the sessions.
    pub fn push_session_list(&self) -> (r: Vec<SessionSummary>)
        ensures
            crate::ipc::types::summary_views(r@) == summaries(self@.devices),
    {
        let ghost s = self@.devices;
        let mut r: Vec<SessionSummary> = Vec::new();
        let mut i: usize = 0;
        proof {
            assert(s.take(0) =~= Seq::empty());
            assert(crate::ipc::types::summary_views(r@) =~= Seq::empty());
        }
        while i < self.devices.len()
            invariant
                i <= self.devices@.len(),
                s == self@.devices,
                s.len() == self.devices@.len(),
                crate::ipc::types::summary_views(r@) == summaries(s.take(i as int)),
            decreases self.devices@.len() - i,
        {
            let ghost before = r@;
            proof {
                let t = s.take(i + 1);
                assert(t.drop_last() =~= s.take(i as int));
                assert(t.last() == self.devices@[i as int]@);
            }
            let e = &self.devices[i];
            match &e.session {
                Some(h) => {
                    let item = SessionSummary {
                        uuid: e.device.uuid,
                        id: copy_text(&e.device.id),
                        serial: copy_text(&e.device.serial),
                        name: copy_text(&e.device.name),
                        state: e.device.state.text(),
                        session_state: h.state_str().to_owned(),
                        clipboard_sync: e.config.clipboard_sync,
                        notification_sync: e.config.notification_sync,
                        audio_enabled: h.audio_enabled,
                        volume: e.config.volume,
                        audio_buffer_ms: h.audio_latency,
                    };
                    assert(item@ =~= summary_of(s[i as int], *h));
                    r.push(item);
                    assert(crate::ipc::types::summary_views(r@)
                        =~= crate::ipc::types::summary_views(before).push(item@));
                },
                None => {},
            }
            i += 1;
        }
        assert(s.take(i as int) =~= s);
        r
    }

    /// The devices.
    pub fn push_merged_devices(&self) -> (r: Vec<Device>)
        ensures
            crate::types::device_views(r@) == self@.devices.map_values(|e: Entry| e.device),
    {
        let ghost all = self@.devices.map_values(|e: Entry| e.device);
        let mut r: Vec<Device> = Vec::new();
        let mut i: usize = 0;
        while i < self.devices.len()
            invariant
                i <= self.devices@.len(),
                all == self@.devices.map_values(|e: Entry| e.device),
                crate::types::device_views(r@) == all.take(i as int),
            decreases self.devices@.len() - i,
        {
            let ghost before = r@;
            assert(self@.devices[i as int] == self.devices@[i as int]@);
            r.push(self.devices[i].device.duplicate());
            i += 1;
            assert(crate::types::device_views(r@) =~= crate::types::device_views(before).push(
                all[i - 1],
            ));
            assert(crate::types::device_views(r@) =~= all.take(i as int));
        }
        assert(all.take(i as int) =~= all);
        r
    }

    /// The daemon ends: all sessions are to be stopped, and no device is known any more.
    pub fn stop_all(&mut self) -> (r: Vec<StopOrder>)
        requires
            old(self).wf(),
        ensures
            final(self).wf(),
            final(self)@ == (CoreState { devices: Seq::empty(), ..old(self)@ }),
            stop_views(r@) == all_stops(old(self)@, old(self)@.devices.len()),
    {
        let ghost s = self@;
        let mut r: Vec<StopOrder> = Vec::new();
        let mut i: usize = 0;
        assert(stop_views(r@) =~= Seq::empty());
        while i < self.devices.len()
            invariant
                i <= self.devices@.len(),
                self.devices@.len() == s.devices.len(),
                self.wf(),
                self@ == s,
                stop_views(r@) == all_stops(s, i as nat),
            decreases self.devices@.len() - i,
        {
            assert(s.devices[i as int] == self.devices@[i as int]@);
            let e = &self.devices[i];
            let stop = match &e.session {
                Some(h) => Some(
                    StopOrder {
                        uuid: e.device.uuid,
                        serial: copy_text(&e.device.serial),
                        port: h.port,
                    },
                ),
                None => None,
            };
            assert(stop_view(stop) == s.stop_of(i as nat));
            let more = one_stop(stop);
            append_stops(&mut r, more);
            i += 1;
        }
        self.devices = Vec::new();
        assert(self@ =~= (CoreState { devices: Seq::empty(), ..s }));
        r
    }

    /// Whether there are ports for the devices that have no session.
    pub fn has_ports(&self) -> (r: bool)
        ensures
            r == (self@.port_counter + idle(self@.devices) <= u16::MAX),
    {
        let ghost all = self@.devices;
        let mut n: usize = 0;
        let mut i: usize = 0;
        assert(all.take(0) =~= Seq::empty());
        while i < self.devices.len()
            invariant
                i <= self.devices@.len(),
                n <= i,
                all == self@.devices,
                all.len() == self.devices@.len(),
                n == idle(all.take(i as int)),
            decreases self.devices@.len() - i,
        {
            proof {
                let t = all.take(i + 1);
                assert(t.drop_last() =~= all.take(i as int));
                assert(all[i as int] == self.devices@[i as int]@);
            }
            if self.devices[i].session.is_none() {
                n += 1;
            }
            i += 1;
        }
        assert(all.take(i as int) =~= all);
        n <= 0xFFFF && self.port_counter <= 0xFFFF - n as u16
    }

    /// Whether there are ports for what a command may start; `adb` is what adb lists.
    pub fn has_ports_for(&self, cmd: &Command, adb: &DeviceMap) -> (r: bool)
        requires
            self.wf(),
        ensures
            r == (self@.port_counter + self@.ports_for(cmd@, adb@) <= u16::MAX),
    {
        assert(entry_views(self.devices@).len() == self.devices@.len());
        let starts: bool = match cmd {
            Command::Retry(uuid) => match self.find(&Wanted::Uuid(*uuid)) {
                Some(i) => {
                    assert(self@.devices[i as int] == self.devices@[i as int]@);
                    let e = &self.devices[i];
                    match &e.session {
                        Some(h) => h.is_failed() && Self::get_online(adb, e.device.serial.as_str()),
                        None => false,
                    }
                },
                None => false,
            },
            Command::UpdateConfig { uuid, audio_sync, .. } => match self.find(
                &Wanted::Uuid(*uuid),
            ) {
                Some(i) => {
                    assert(self@.devices[i as int] == self.devices@[i as int]@);
                    let e = &self.devices[i];
                    match &e.session {
                        Some(h) => e.config.audio_enabled != *audio_sync || h.audio_enabled
                            != *audio_sync,
                        None => false,
                    }
                },
                None => false,
            },
            Command::StartSession(serial) => match self.find(&Wanted::Any(serial.as_str())) {
                Some(i) => {
                    assert(self@.devices[i as int] == self.devices@[i as int]@);
                    self.devices[i].session.is_none()
                },
                None => false,
            },
            Command::RestartAllSessions => {
                return self.devices.len() <= 0xFFFF && self.port_counter <= 0xFFFF
                    - self.devices.len() as u16;
            },
            _ => false,
        };
        !starts || self.port_counter < 0xFFFF
    }

    /// How many addresses are to be connected to.
    pub fn pending_count(&self) -> (r: usize)
        ensures
            r == self@.pending.len(),
    {
        self.pending.len()
    }

    /// How many devices have a session.
    pub fn session_count(&self) -> (r: usize)
        ensures
            r == summaries(self@.devices).len(),
    {
        self.push_session_list().len()
    }
}

/// The orders to stop the sessions of the first `n` devices.
pub open spec fn all_stops(s: CoreState, n: nat) -> Seq<Stop>
    decreases n,
{
    if n == 0 {
        Seq::empty()
    } else {
        all_stops(s, (n - 1) as nat) + listed(s.stop_of((n - 1) as nat))
    }
}

/// What is told of a session.
pub open spec fn summary_of(e: Entry, h: Handle) -> crate::ipc::types::Summary {
    crate::ipc::types::Summary {
        uuid: e.device.uuid,
        id: e.device.id,
        serial: e.device.serial,
        name: e.device.name,
        state: e.device.state.told(),
        session_state: crate::session::handle::state_name(h.session_state),
        clipboard_sync: e.config.clipboard_sync,
        notification_sync: e.config.notification_sync,
        audio_enabled: h.audio_enabled,
        volume: e.config.volume,
        audio_buffer_ms: h.audio_latency,
    }
}

/// What is told of the sessions of these devices.
pub open spec fn summaries(s: Seq<Entry>) -> Seq<crate::ipc::types::Summary>
    decreases s.len(),
{
    if s.len() == 0 {
        Seq::empty()
    } else {
        let before = summaries(s.drop_last());
        match s.last().session {
            Some(h) => before.push(summary_of(s.last(), h)),
            None => before,
        }
    }
}

fn holds_uuid(v: &[u128], uuid: u128) -> (r: bool)
    ensures
        r == v@.contains(uuid),
{
    let mut i: usize = 0;
    while i < v.len()
        invariant
            i <= v@.len(),
            forall|j: int| 0 <= j < i ==> #[trigger] v@[j] != uuid,
        decreases v@.len() - i,
    {
        if v[i] == uuid {
            return true;
        }
        i += 1;
    }
    false
}

fn no_orders() -> (r: Orders)
    ensures
        stop_views(r.stop@) == Seq::<Stop>::empty(),
        start_views(r.start@) == Seq::<Start>::empty(),
{
    let r = Orders { stop: Vec::new(), start: Vec::new() };
    assert(stop_views(r.stop@) =~= Seq::empty());
    assert(start_views(r.start@) =~= Seq::empty());
    r
}

fn one_stop(o: Option<StopOrder>) -> (r: Vec<StopOrder>)
    ensures
        stop_views(r@) == listed(stop_view(o)),
{
    let mut r: Vec<StopOrder> = Vec::new();
    match o {
        Some(s) => {
            r.push(s);
        },
        None => {},
    }
    assert(stop_views(r@) =~= listed(stop_view(o)));
    r
}

fn one_start(o: Option<StartOrder>) -> (r: Vec<StartOrder>)
    ensures
        start_views(r@) == listed(start_view(o)),
{
    let mut r: Vec<StartOrder> = Vec::new();
    match o {
        Some(s) => {
            r.push(s);
        },
        None => {},
    }
    assert(start_views(r@) =~= listed(start_view(o)));
    r
}

fn append_stops(to: &mut Vec<StopOrder>, more: Vec<StopOrder>)
    ensures
        stop_views(final(to)@) == stop_views(old(to)@) + stop_views(more@),
{
    let ghost before = to@;
    let mut more = more;
    let ghost tail = more@;
    to.append(&mut more);
    assert(stop_views(to@) =~= stop_views(before) + stop_views(tail));
}

fn append_starts(to: &mut Vec<StartOrder>, more: Vec<StartOrder>)
    ensures
        start_views(final(to)@) == start_views(old(to)@) + start_views(more@),
{
    let ghost before = to@;
    let mut more = more;
    let ghost tail = more@;
    to.append(&mut more);
    assert(start_views(to@) =~= start_views(before) + start_views(tail));
}

} // verus!
