//! The program that runs in a terminal: it pairs, keeps a session with every device that adb
//! lists, and carries the clipboard to and fro.
use crate::device_map::{lemma_place_of, place_of, with_device, DeviceMap};
use crate::notification::NotifInfo;
use crate::text::{cat2, cat3, copy_text, holds, same, string_view, string_views};
use crate::types::{device_views, Device, DeviceView, State};
use crate::wireless_pair::{address, format_address, MdnsEvent};
use vstd::prelude::*;

verus! {

/// The port of the first session.
pub const FIRST_PORT: u16 = 27183;

/// How often at most it is said that the clipboard cannot be read.
pub const ERROR_INTERVAL: u64 = 30_000_000_000;

/// What came from the search for phones.
#[derive(Debug)]
pub enum Found {
    Event(MdnsEvent),
    /// Nothing for half a second.
    Timeout,
    /// The search is over.
    Closed,
}

/// What is to be done about it.
#[derive(Debug)]
pub enum FoundStep {
    Nothing,
    /// Pair with the phone at this address.
    Pair(String),
    /// The program ends.
    Stop,
}

/// The devices of a list that are connected, each under its address; of two with the same
/// address the later one counts.
pub open spec fn connected(ds: Seq<DeviceView>) -> Seq<DeviceView>
    decreases ds.len(),
{
    if ds.len() == 0 {
        Seq::empty()
    } else if ds.last().state == State::Device {
        with_device(connected(ds.drop_last()), ds.last())
    } else {
        connected(ds.drop_last())
    }
}

/// The state of the program, as the contracts speak of it.
#[verifier::ext_equal]
pub struct CoreState {
    pub devices: Seq<DeviceView>,
    /// The addresses of the devices that have a session.
    pub sessions: Seq<Seq<char>>,
    pub next_port: u16,
    /// The text that the desktop's clipboard held last.
    pub last_seen: Option<Seq<char>>,
    /// The text that came from a phone last.
    pub last_received: Option<Seq<char>>,
    pub last_error: u64,
    pub stopped: bool,
}

/// The state of the program.
#[derive(Debug)]
pub struct Core {
    devices: DeviceMap,
    sessions: Vec<String>,
    next_port: u16,
    clipboard_last_seen: Option<String>,
    last_received_from_phone: Option<String>,
    last_clipboard_error: u64,
    stopped: bool,
}

impl View for Core {
    type V = CoreState;

    closed spec fn view(&self) -> CoreState {
        CoreState {
            devices: self.devices@,
            sessions: string_views(self.sessions@),
            next_port: self.next_port,
            last_seen: string_view(self.clipboard_last_seen),
            last_received: string_view(self.last_received_from_phone),
            last_error: self.last_clipboard_error,
            stopped: self.stopped,
        }
    }
}

/// The addresses of `ds` that are not among `sessions`.
pub open spec fn without_session(
    ds: Seq<DeviceView>,
    sessions: Seq<Seq<char>>,
) -> Seq<DeviceView> {
    ds.filter(|d: DeviceView| !sessions.contains(d.serial))
}

impl CoreState {
    pub open spec fn fresh(now: u64) -> CoreState {
        CoreState {
            devices: Seq::empty(),
            sessions: Seq::empty(),
            next_port: FIRST_PORT,
            last_seen: None,
            last_received: None,
            last_error: now,
            stopped: false,
        }
    }

    /// Whether a text from a phone is put on the desktop's clipboard: it is not what a phone
    /// sent last, nor what the clipboard held last.
    pub open spec fn writes(self, text: Seq<char>) -> bool {
        self.last_received != Some(text) && self.last_seen != Some(text)
    }

    /// After a text from a phone.
    pub open spec fn received(self, text: Seq<char>) -> CoreState {
        CoreState { last_received: Some(text), ..self }
    }

    /// Whether a text on the desktop's clipboard is sent to the phones: it is new, and it did
    /// not come from a phone.
    pub open spec fn sends(self, text: Seq<char>) -> bool {
        self.last_seen != Some(text) && self.last_received != Some(text)
    }

    /// After the desktop's clipboard was read at `now`.
    pub open spec fn seen(self, text: Seq<char>, now: u64) -> CoreState {
        if self.last_seen == Some(text) {
            self
        } else {
            CoreState { last_seen: Some(text), last_error: now, ..self }
        }
    }

    /// After a session with the device at `serial` was set up; `clipboard` is whether its
    /// clipboard service runs and so has taken the port.
    pub open spec fn started(self, serial: Seq<char>, clipboard: bool) -> CoreState {
        CoreState {
            sessions: self.sessions.push(serial),
            next_port: if clipboard {
                (self.next_port + 1) as u16
            } else {
                self.next_port
            },
            ..self
        }
    }

    /// Whether the device at `serial` is listed.
    pub open spec fn lists(self, serial: Seq<char>) -> bool {
        place_of(self.devices, serial) is Some
    }
}

impl Core {
    pub closed spec fn wf(&self) -> bool {
        self.devices.wf()
    }

    pub fn new(now: u64) -> (r: Self)
        ensures
            r.wf(),
            r@ == CoreState::fresh(now),
    {
        let r = Core {
            devices: DeviceMap::new(),
            sessions: Vec::new(),
            next_port: FIRST_PORT,
            clipboard_last_seen: None,
            last_received_from_phone: None,
            last_clipboard_error: now,
            stopped: false,
        };
        assert(r@ =~= CoreState::fresh(now));
        r
    }

    /// Asks the program to end.
    pub fn stop(&mut self)
        requires
            old(self).wf(),
        ensures
            final(self).wf(),
            final(self)@ == (CoreState { stopped: true, ..old(self)@ }),
    {
        self.stopped = true;
    }

    pub fn should_stop(&self) -> (r: bool)
        ensures
            r == self@.stopped,
    {
        self.stopped
    }

    /// The devices that are listed.
    pub fn devices(&self) -> (r: &DeviceMap)
        requires
            self.wf(),
        ensures
            r.wf(),
            r@ == self@.devices,
    {
        &self.devices
    }

    /// Takes in what adb lists, `None` where it failed. Only devices that are connected
    /// count; where adb failed there are none.
    pub fn refresh_devices(&mut self, list: Option<&[Device]>)
        requires
            old(self).wf(),
        ensures
            final(self).wf(),
            final(self)@ == (CoreState {
                devices: match list {
                    Some(l) => connected(device_views(l@)),
                    None => Seq::empty(),
                },
                ..old(self)@
            }),
    {
        let mut map = DeviceMap::new();
        if let Some(l) = list {
            let mut i: usize = 0;
            assert(device_views(l@).take(0) =~= Seq::empty());
            while i < l.len()
                invariant
                    i <= l@.len(),
                    map.wf(),
                    map@ == connected(device_views(l@).take(i as int)),
                decreases l@.len() - i,
            {
                let ghost more = device_views(l@).take(i + 1);
                assert(more.drop_last() =~= device_views(l@).take(i as int));
                assert(more.last() == l@[i as int]@);
                if l[i].state.is_device() {
                    map.insert(l[i].duplicate());
                }
                i += 1;
            }
            assert(device_views(l@).take(i as int) =~= device_views(l@));
        }
        self.devices = map;
    }

    /// What is done about what the search for phones found.
    pub fn on_found(&mut self, found: Found) -> (r: FoundStep)
        requires
            old(self).wf(),
        ensures
            final(self).wf(),
            final(self)@ == old(self)@,
            match found {
                Found::Event(MdnsEvent::PairingDiscovered { host, port }) => r matches FoundStep::Pair(a)
                    && a@ == address(host@, port),
                Found::Event(_) => r == FoundStep::Nothing,
                Found::Timeout => r == FoundStep::Nothing,
                Found::Closed => r == FoundStep::Stop,
            },
    {
        match found {
            Found::Event(MdnsEvent::PairingDiscovered { host, port }) => FoundStep::Pair(
                format_address(host.as_str(), port),
            ),
            Found::Event(_) => FoundStep::Nothing,
            Found::Timeout => FoundStep::Nothing,
            Found::Closed => FoundStep::Stop,
        }
    }

    /// Takes in a text from a phone. The result is whether it is put on the desktop's
    /// clipboard.
    pub fn on_phone_clipboard(&mut self, text: &str) -> (r: bool)
        requires
            old(self).wf(),
        ensures
            final(self).wf(),
            r == old(self)@.writes(text@),
            final(self)@ == old(self)@.received(text@),
    {
        if holds(&self.last_received_from_phone, text) {
            return false;
        }
        self.last_received_from_phone = Some(text.to_owned());
        !holds(&self.clipboard_last_seen, text)
    }

    /// Takes in what the desktop's clipboard holds. The result is whether it is sent to all
    /// phones.
    pub fn on_system_clipboard(&mut self, text: &str, now: u64) -> (r: bool)
        requires
            old(self).wf(),
        ensures
            final(self).wf(),
            r == old(self)@.sends(text@),
            final(self)@ == old(self)@.seen(text@, now),
    {
        if holds(&self.clipboard_last_seen, text) {
            return false;
        }
        self.clipboard_last_seen = Some(text.to_owned());
        self.last_clipboard_error = now;
        !holds(&self.last_received_from_phone, text)
    }

    /// Takes in that the desktop's clipboard cannot be read. The result is whether that is
    /// said.
    pub fn on_clipboard_error(&mut self, now: u64) -> (r: bool)
        requires
            old(self).wf(),
        ensures
            final(self).wf(),
            r == (now - old(self)@.last_error >= ERROR_INTERVAL),
            final(self)@ == if r {
                CoreState { last_error: now, ..old(self)@ }
            } else {
                old(self)@
            },
    {
        if now >= self.last_clipboard_error && now - self.last_clipboard_error >= ERROR_INTERVAL {
            self.last_clipboard_error = now;
            true
        } else {
            false
        }
    }

    fn has_session(&self, serial: &str) -> (r: bool)
        ensures
            r == self@.sessions.contains(serial@),
    {
        let mut i: usize = 0;
        while i < self.sessions.len()
            invariant
                i <= self.sessions@.len(),
                forall|j: int| 0 <= j < i ==> #[trigger] self@.sessions[j] != serial@,
            decreases self.sessions@.len() - i,
        {
            if same(self.sessions[i].as_str(), serial) {
                assert(self@.sessions[i as int] == serial@);
                return true;
            }
            i += 1;
        }
        false
    }

    /// The devices that are listed and have no session yet.
    pub fn new_devices(&self) -> (r: Vec<Device>)
        requires
            self.wf(),
        ensures
            device_views(r@) == without_session(self@.devices, self@.sessions),
    {
        let mut r: Vec<Device> = Vec::new();
        let ghost keep = |d: DeviceView| !self@.sessions.contains(d.serial);
        let mut i: usize = 0;
        proof {
            reveal(Seq::filter);
        }
        assert(self@.devices.take(0) =~= Seq::empty());
        while i < self.devices.len()
            invariant
                i <= self.devices@.len(),
                self@.devices == self.devices@,
                keep == (|d: DeviceView| !self@.sessions.contains(d.serial)),
                device_views(r@) =~= self.devices@.take(i as int).filter(keep),
            decreases self.devices@.len() - i,
        {
            let d: &Device = self.devices.at(i);
            let ghost before = r@;
            let ghost more = self.devices@.take(i + 1);
            proof {
                reveal(Seq::filter);
                assert(more.drop_last() =~= self.devices@.take(i as int));
                assert(more.last() == d@);
            }
            if !self.has_session(d.serial.as_str()) {
                r.push(d.duplicate());
                assert(device_views(r@) =~= device_views(before).push(d@));
            }
            i += 1;
        }
        assert(self.devices@.take(i as int) =~= self.devices@);
        r
    }

    /// The port for the next session.
    pub fn next_port(&self) -> (r: u16)
        ensures
            r == self@.next_port,
    {
        self.next_port
    }

    /// Takes in that a session with the device at `serial` was set up; `clipboard` is whether
    /// its clipboard service runs.
    pub fn start_session(&mut self, serial: &str, clipboard: bool)
        requires
            old(self).wf(),
            clipboard ==> old(self)@.next_port < u16::MAX,
        ensures
            final(self).wf(),
            final(self)@ == old(self)@.started(serial@, clipboard),
    {
        let ghost before = self.sessions@;
        self.sessions.push(serial.to_owned());
        assert(string_views(self.sessions@) =~= string_views(before).push(serial@));
        if clipboard {
            self.next_port = self.next_port + 1;
        }
    }

    /// The sessions whose devices are no longer listed; they end.
    pub fn end_sessions(&mut self) -> (r: Vec<String>)
        requires
            old(self).wf(),
        ensures
            final(self).wf(),
            string_views(r@) == old(self)@.sessions.filter(
                |s: Seq<char>| !old(self)@.lists(s),
            ),
            final(self)@ == (CoreState {
                sessions: old(self)@.sessions.filter(|s: Seq<char>| old(self)@.lists(s)),
                ..old(self)@
            }),
    {
        let ghost gone = |s: Seq<char>| !old(self)@.lists(s);
        let ghost stay = |s: Seq<char>| old(self)@.lists(s);
        let mut ended: Vec<String> = Vec::new();
        let mut kept: Vec<String> = Vec::new();
        let mut i: usize = 0;
        proof {
            reveal(Seq::filter);
        }
        assert(string_views(self.sessions@).take(0) =~= Seq::empty());
        while i < self.sessions.len()
            invariant
                i <= self.sessions@.len(),
                *self == *old(self),
                gone == (|s: Seq<char>| !old(self)@.lists(s)),
                stay == (|s: Seq<char>| old(self)@.lists(s)),
                string_views(ended@) =~= string_views(self.sessions@).take(i as int).filter(gone),
                string_views(kept@) =~= string_views(self.sessions@).take(i as int).filter(stay),
            decreases self.sessions@.len() - i,
        {
            let ghost more = string_views(self.sessions@).take(i + 1);
            let ghost s = self.sessions@[i as int]@;
            let ghost before = (ended@, kept@);
            proof {
                reveal(Seq::filter);
                assert(more.drop_last() =~= string_views(self.sessions@).take(i as int));
                assert(more.last() == s);
            }
            if self.devices.contains_key(self.sessions[i].as_str()) {
                kept.push(copy_text(&self.sessions[i]));
                assert(string_views(kept@) =~= string_views(before.1).push(s));
            } else {
                ended.push(copy_text(&self.sessions[i]));
                assert(string_views(ended@) =~= string_views(before.0).push(s));
            }
            i += 1;
        }
        assert(string_views(self.sessions@).take(i as int) =~= string_views(self.sessions@));
        self.sessions = kept;
        ended
    }

    /// Ends all sessions; the result is which.
    pub fn stop_all(&mut self) -> (r: Vec<String>)
        requires
            old(self).wf(),
        ensures
            final(self).wf(),
            string_views(r@) == old(self)@.sessions,
            final(self)@ == (CoreState { stopped: true, sessions: Seq::empty(), ..old(self)@ }),
    {
        self.stopped = true;
        let ghost before = self@;
        let mut r: Vec<String> = Vec::new();
        std::mem::swap(&mut r, &mut self.sessions);
        assert(self@ =~= (CoreState { sessions: Seq::empty(), ..before }));
        r
    }
}

/// The line that is printed for a notification.
pub fn notification_line(n: &NotifInfo) -> (r: String)
    ensures
        r@ == match n@.title {
            Some(t) => "通知: ["@ + n@.package + "] "@ + t,
            None => "通知: ["@ + n@.package + "]"@,
        },
{
    match &n.title {
        Some(t) => cat2(cat3("通知: [", n.package.as_str(), "] ").as_str(), t.as_str()),
        None => cat3("通知: [", n.package.as_str(), "]"),
    }
}

/// A text that came from a phone is not sent back when it turns up on the desktop's
/// clipboard, and a text that the desktop's clipboard holds is not written there again when
/// a phone sends it.
pub proof fn law_text_does_not_return(s: CoreState, text: Seq<char>, now: u64)
    ensures
        !s.received(text).sends(text),
        !s.seen(text, now).writes(text),
        !s.received(text).writes(text),
        !s.seen(text, now).sends(text),
{
}

/// When every listed device without a session was given one, and the sessions of devices that
/// are not listed have ended, the devices with a session are exactly those that are listed.
pub proof fn law_sessions_follow_devices(s: CoreState, serial: Seq<char>)
    ensures
        ({
            let started = s.sessions + without_session(s.devices, s.sessions).map_values(
                |d: DeviceView| d.serial,
            );
            let left = started.filter(|t: Seq<char>| s.lists(t));
            left.contains(serial) <==> s.lists(serial)
        }),
{
    let keep = |d: DeviceView| !s.sessions.contains(d.serial);
    let fresh = without_session(s.devices, s.sessions);
    let serials = fresh.map_values(|d: DeviceView| d.serial);
    let started = s.sessions + serials;
    let lists = |t: Seq<char>| s.lists(t);
    let left = started.filter(lists);
    lemma_place_of(s.devices, serial);
    if left.contains(serial) {
        let i = choose|i: int| 0 <= i < left.len() && left[i] == serial;
        started.lemma_filter_pred(lists, i);
    }
    if s.lists(serial) {
        let k = place_of(s.devices, serial)->0 as int;
        let d = s.devices[k];
        if s.sessions.contains(serial) {
            let j = choose|j: int| 0 <= j < s.sessions.len() && s.sessions[j] == serial;
            assert(started[j] == serial);
        } else {
            s.devices.lemma_filter_contains(keep, k);
            let j = choose|j: int| 0 <= j < fresh.len() && fresh[j] == d;
            assert(serials[j] == serial);
            assert(started[s.sessions.len() + j] == serial);
        }
        let m = choose|m: int| 0 <= m < started.len() && started[m] == serial;
        started.lemma_filter_contains(lists, m);
    }
}

/// A device is listed exactly where adb listed it as connected.
pub proof fn law_listed_devices_are_connected(ds: Seq<DeviceView>, serial: Seq<char>)
    ensures
        place_of(connected(ds), serial) is Some <==> exists|i: int|
            0 <= i < ds.len() && (#[trigger] ds[i]).serial == serial && ds[i].state
                == State::Device,
        forall|i: int|
            0 <= i < connected(ds).len() ==> (#[trigger] connected(ds)[i]).state == State::Device,
    decreases ds.len(),
{
    let c = connected(ds);
    if ds.len() > 0 {
        let front = ds.drop_last();
        let d = ds.last();
        law_listed_devices_are_connected(front, serial);
        let before = connected(front);
        lemma_place_of(before, serial);
        lemma_place_of(before, d.serial);
        lemma_place_of(c, serial);
        if exists|i: int|
            0 <= i < front.len() && (#[trigger] front[i]).serial == serial && front[i].state
                == State::Device {
            let i = choose|i: int|
                0 <= i < front.len() && (#[trigger] front[i]).serial == serial && front[i].state
                    == State::Device;
            assert(ds[i] == front[i]);
        }
        if exists|i: int|
            0 <= i < ds.len() && (#[trigger] ds[i]).serial == serial && ds[i].state
                == State::Device {
            let i = choose|i: int|
                0 <= i < ds.len() && (#[trigger] ds[i]).serial == serial && ds[i].state
                    == State::Device;
            if i < front.len() {
                assert(front[i] == ds[i]);
            }
        }
        if d.state == State::Device {
            assert(ds[ds.len() - 1] == d);
            match place_of(before, d.serial) {
                Some(k) => {
                    assert(c[k as int] == d);
                    if let Some(j) = place_of(before, serial) {
                        if j != k {
                            assert(c[j as int] == before[j as int]);
                        }
                    }
                    if let Some(j) = place_of(c, serial) {
                        if j != k {
                            assert(c[j as int] == before[j as int]);
                        }
                    }
                    assert forall|i: int| 0 <= i < c.len() implies (#[trigger] c[i]).state
                        == State::Device by {
                        if i != k {
                            assert(c[i] == before[i]);
                        }
                    }
                },
                None => {
                    assert(c[before.len() as int] == d);
                    if let Some(j) = place_of(before, serial) {
                        assert(c[j as int] == before[j as int]);
                    }
                    if let Some(j) = place_of(c, serial) {
                        if j < before.len() {
                            assert(c[j as int] == before[j as int]);
                        }
                    }
                    assert forall|i: int| 0 <= i < c.len() implies (#[trigger] c[i]).state
                        == State::Device by {
                        if i < before.len() {
                            assert(c[i] == before[i]);
                        }
                    }
                },
            }
        }
    }
}

/// A text from a phone is written exactly where it is neither what came last from one nor what
/// the desktop's clipboard held last; a text on the desktop's clipboard is sent under the same
/// condition. Each is remembered as what it is, and nothing else changes.
pub proof fn law_new_text_is_passed_on(s: CoreState, text: Seq<char>, now: u64)
    ensures
        s.writes(text) <==> s.last_received != Some(text) && s.last_seen != Some(text),
        s.sends(text) <==> s.last_received != Some(text) && s.last_seen != Some(text),
        s.received(text).last_received == Some(text),
        s.received(text).last_seen == s.last_seen,
        s.received(text).devices == s.devices && s.received(text).sessions == s.sessions,
        s.seen(text, now).last_seen == Some(text),
        s.seen(text, now).last_received == s.last_received,
        s.seen(text, now).devices == s.devices && s.seen(text, now).sessions == s.sessions,
        s.last_seen != Some(text) ==> s.seen(text, now).last_error == now,
{
}

/// Of two different texts that come from the phones one after the other both are written, and of
/// two that are copied on the desktop both are sent, as long as the other side does not hold them.
pub proof fn law_text_after_text_is_passed_on(
    s: CoreState,
    a: Seq<char>,
    b: Seq<char>,
    now: u64,
)
    requires
        a != b,
        s.last_received != Some(a) && s.last_seen != Some(a),
        s.last_received != Some(b) && s.last_seen != Some(b),
    ensures
        s.writes(a) && s.received(a).writes(b),
        s.sends(a) && s.seen(a, now).sends(b),
{
}

/// A device without a session is one of those that are to be given one exactly where it is listed,
/// and a session that was set up counts, with its port where the clipboard service took it.
pub proof fn law_listed_device_is_given_a_session(
    s: CoreState,
    d: DeviceView,
    clipboard: bool,
)
    ensures
        without_session(s.devices, s.sessions).contains(d) <==> s.devices.contains(d)
            && !s.sessions.contains(d.serial),
        s.started(d.serial, clipboard).sessions == s.sessions.push(d.serial),
        s.started(d.serial, clipboard).devices == s.devices,
        clipboard && s.next_port < u16::MAX ==> s.started(d.serial, clipboard).next_port
            == s.next_port + 1,
        !clipboard ==> s.started(d.serial, clipboard).next_port == s.next_port,
        !without_session(s.devices, s.started(d.serial, clipboard).sessions).contains(d),
{
    let keep = |x: DeviceView| !s.sessions.contains(x.serial);
    let left = s.devices.filter(keep);
    if left.contains(d) {
        let i = choose|i: int| 0 <= i < left.len() && left[i] == d;
        s.devices.lemma_filter_pred(keep, i);
        s.devices.lemma_filter_contains_rev(keep, d);
    }
    if s.devices.contains(d) && keep(d) {
        let i = choose|i: int| 0 <= i < s.devices.len() && s.devices[i] == d;
        s.devices.lemma_filter_contains(keep, i);
    }
    let after = s.started(d.serial, clipboard).sessions;
    assert(after[s.sessions.len() as int] == d.serial);
    let then = |x: DeviceView| !after.contains(x.serial);
    let rest = s.devices.filter(then);
    if rest.contains(d) {
        let i = choose|i: int| 0 <= i < rest.len() && rest[i] == d;
        s.devices.lemma_filter_pred(then, i);
    }
}

/// In the beginning no device is known and no session runs, nothing was seen on any clipboard, and
/// the first session will use port 27183.
pub proof fn law_nothing_runs_in_the_beginning(now: u64)
    ensures
        ({
            let s = CoreState::fresh(now);
            &&& s.devices.len() == 0 && s.sessions.len() == 0
            &&& s.last_seen is None && s.last_received is None
            &&& s.next_port == 27183
            &&& !s.stopped
            &&& s.last_error == now
        }),
{
}

} // verus!
