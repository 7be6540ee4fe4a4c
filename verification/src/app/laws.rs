//! What holds of the daemon's devices and sessions as a whole.
use super::{
    first, hardware_id, idle, lemma_first, lemma_gone_shape, lemma_rank_shape, new_handle,
    online, CommandView, CoreState, Pending, Query, Start, Stop, MAX_ATTEMPTS,
};
use crate::session::handle::SESSION_STATE_FAILED;
use vstd::prelude::*;

verus! {

/// Once the sessions have been brought in line, every device that adb lists as connected
/// has one, every device that has one is listed, and the devices are the same as before.
pub proof fn law_sessions_follow_devices(s: CoreState, adb: Seq<crate::types::DeviceView>, k: int)
    requires
        s.distinct(),
        s.port_counter + idle(s.devices) <= u16::MAX,
        0 <= k < s.devices.len(),
    ensures
        ({
            let t = s.synced(adb).0;
            let e = t.devices[k];
            &&& t.devices.len() == s.devices.len()
            &&& e.device == s.devices[k].device
            &&& online(adb, e.device.serial) ==> e.session is Some
            &&& e.session is Some ==> crate::device_map::place_of(adb, e.device.serial) is Some
        }),
{
    let n = s.devices.len();
    lemma_rank_shape(s, adb, 3, n);
    let a = s.rank_started(adb, 3, n).0;
    lemma_rank_shape(a, adb, 2, n);
    let b = a.rank_started(adb, 2, n).0;
    lemma_rank_shape(b, adb, 1, n);
    let c = b.rank_started(adb, 1, n).0;
    lemma_gone_shape(c, adb, n);
    assert(a.devices[k].device == s.devices[k].device);
    assert(b.devices[k].device == a.devices[k].device);
    assert(c.devices[k].device == b.devices[k].device);
    let serial = s.devices[k].device.serial;
    assert(crate::types::addr_kind(serial).rank() == 3 || crate::types::addr_kind(serial).rank()
        == 2 || crate::types::addr_kind(serial).rank() == 1);
}

/// A text that came from a phone and was written to the desktop's clipboard is not sent
/// back to the phones, and is not written again.
pub proof fn law_phone_text_is_not_sent_back(s: CoreState, text: Seq<char>, now: u64)
    ensures
        !s.heard(text).0.copied(text, now).1,
        !s.heard(text).0.heard(text).1,
{
}

/// A text that the desktop's clipboard held and that was sent to the phones is not written
/// back when a phone reports it, and is not sent again.
pub proof fn law_desktop_text_is_not_written_back(s: CoreState, text: Seq<char>, now: u64, later: u64)
    ensures
        !s.copied(text, now).0.heard(text).1,
        !s.copied(text, now).0.copied(text, later).1,
{
}

/// Listing a device changes no number of a device, adds at most one, and after it the
/// device is known by the address that it was listed at.
pub proof fn law_devices_keep_their_numbers(
    s: CoreState,
    serial: Seq<char>,
    state: crate::types::State,
    reply: Option<Seq<u8>>,
    uuid: u128,
)
    ensures
        ({
            let (t, u) = s.inserted(serial, state, reply, uuid);
            &&& s.devices.len() <= t.devices.len() <= s.devices.len() + 1
            &&& forall|i: int|
                0 <= i < s.devices.len() ==> (#[trigger] t.devices[i]).device.uuid
                    == s.devices[i].device.uuid
            &&& first(t.devices, Query::Addr(serial)) matches Some(i)
                && t.devices[i as int].device.uuid == u
        }),
{
    let (t, u) = s.inserted(serial, state, reply, uuid);
    let id = hardware_id(serial, state, reply);
    lemma_first(s.devices, Query::Addr(serial));
    lemma_first(s.devices, Query::Id(id));
    lemma_first(s.devices, Query::Uuid(uuid));
    lemma_first(t.devices, Query::Addr(serial));
    let at: int = match first(s.devices, Query::Addr(serial)) {
        Some(i) => i as int,
        None => match first(s.devices, Query::Id(id)) {
            Some(i) => i as int,
            None => match first(s.devices, Query::Uuid(uuid)) {
                Some(i) => i as int,
                None => s.devices.len() as int,
            },
        },
    };
    assert(Query::Addr(serial).fits(t.devices[at]));
    assert(t.devices[at].device.uuid == u);
    assert forall|j: int| 0 <= j < at implies !Query::Addr(serial).fits(
        #[trigger] t.devices[j],
    ) by {
        assert(t.devices[j] == s.devices[j]);
        assert(!Query::Addr(serial).fits(s.devices[j]));
    }
    let k = first(t.devices, Query::Addr(serial)).unwrap() as int;
    assert(k == at);
}

/// A device that is listed twice at one address is one device.
pub proof fn law_listing_twice_is_listing_once(
    s: CoreState,
    serial: Seq<char>,
    state: crate::types::State,
    reply: Option<Seq<u8>>,
    uuid: u128,
    again: crate::types::State,
    reply2: Option<Seq<u8>>,
    uuid2: u128,
)
    ensures
        ({
            let (t, u) = s.inserted(serial, state, reply, uuid);
            let (v, w) = t.inserted(serial, again, reply2, uuid2);
            w == u && v.devices.len() == t.devices.len()
        }),
{
    law_devices_keep_their_numbers(s, serial, state, reply, uuid);
    lemma_first(s.inserted(serial, state, reply, uuid).0.devices, Query::Addr(serial));
}

/// Two addresses at which a phone gives one serial number are one device, unless one of
/// them was known as an address of some device before.
pub proof fn law_addresses_of_one_phone_are_merged(
    s: CoreState,
    a: Seq<char>,
    b: Seq<char>,
    reply_a: Option<Seq<u8>>,
    reply_b: Option<Seq<u8>>,
    uuid_a: u128,
    uuid_b: u128,
)
    requires
        first(s.devices, Query::Addr(a)) is None,
        first(
            s.inserted(a, crate::types::State::Device, reply_a, uuid_a).0.devices,
            Query::Addr(b),
        ) is None,
        crate::session::deploy::name_in(reply_a) is Some,
        crate::session::deploy::name_in(reply_a) == crate::session::deploy::name_in(reply_b),
    ensures
        ({
            let (t, u) = s.inserted(a, crate::types::State::Device, reply_a, uuid_a);
            let (v, w) = t.inserted(b, crate::types::State::Device, reply_b, uuid_b);
            &&& u == w
            &&& v.devices.len() == t.devices.len()
        }),
{
    let dev = crate::types::State::Device;
    let (t, u) = s.inserted(a, dev, reply_a, uuid_a);
    let id = hardware_id(a, dev, reply_a);
    assert(hardware_id(b, dev, reply_b) == id);
    lemma_first(s.devices, Query::Id(id));
    lemma_first(s.devices, Query::Uuid(uuid_a));
    lemma_first(t.devices, Query::Id(id));
    let at: int = match first(s.devices, Query::Id(id)) {
        Some(i) => i as int,
        None => match first(s.devices, Query::Uuid(uuid_a)) {
            Some(i) => i as int,
            None => s.devices.len() as int,
        },
    };
    assert(Query::Id(id).fits(t.devices[at]));
    assert forall|j: int| 0 <= j < at implies !Query::Id(id).fits(#[trigger] t.devices[j]) by {
        assert(t.devices[j] == s.devices[j]);
        assert(!Query::Id(id).fits(s.devices[j]));
    }
    let k = first(t.devices, Query::Id(id)).unwrap() as int;
    assert(k == at);
}

impl CoreState {
    /// Every session has a port that was handed out, and no two have the same.
    pub open spec fn ports_differ(self) -> bool {
        &&& forall|i: int|
            0 <= i < self.devices.len() ==> ((#[trigger] self.devices[i]).session matches Some(h)
                ==> h.port < self.port_counter)
        &&& forall|i: int, j: int|
            0 <= i < j < self.devices.len() ==> ((#[trigger] self.devices[i]).session matches Some(
                g,
            ) ==> ((#[trigger] self.devices[j]).session matches Some(h) ==> g.port != h.port))
    }
}

/// A session that is started gets a port that no other session has, and stopping one leaves
/// the others' ports alone.
pub proof fn law_sessions_have_ports_of_their_own(s: CoreState, i: nat)
    requires
        s.ports_differ(),
        i < s.devices.len(),
        s.port_counter < u16::MAX,
    ensures
        s.started(i).0.ports_differ(),
        s.without_session(i).ports_differ(),
        s.started(i).1 matches Some(o) ==> forall|j: int|
            0 <= j < s.devices.len() ==> ((#[trigger] s.devices[j]).session matches Some(h)
                ==> h.port != o.port),
{
    let t = s.started(i).0;
    assert forall|a: int, b: int| 0 <= a < b < t.devices.len() implies ((
    #[trigger] t.devices[a]).session matches Some(g) ==> ((
    #[trigger] t.devices[b]).session matches Some(h) ==> g.port != h.port)) by {
        let x = s.devices[a];
        let y = s.devices[b];
    }
    let v = s.without_session(i);
    assert forall|a: int, b: int| 0 <= a < b < v.devices.len() implies ((
    #[trigger] v.devices[a]).session matches Some(g) ==> ((
    #[trigger] v.devices[b]).session matches Some(h) ==> g.port != h.port)) by {
        let x = s.devices[a];
        let y = s.devices[b];
    }
}

/// How many tries the addresses of a queue have left together.
pub open spec fn tries_left(s: Seq<Pending>) -> int
    decreases s.len(),
{
    if s.len() == 0 {
        0
    } else {
        tries_left(s.drop_last()) + (MAX_ATTEMPTS - s.last().attempts)
    }
}

proof fn lemma_tries_skip(s: Seq<Pending>)
    requires
        s.len() > 0,
    ensures
        tries_left(s) == tries_left(s.skip(1)) + (MAX_ATTEMPTS - s[0].attempts),
    decreases s.len(),
{
    if s.len() == 1 {
        assert(s.drop_last() =~= Seq::empty());
        assert(s.skip(1) =~= Seq::empty());
    } else {
        lemma_tries_skip(s.drop_last());
        assert(s.drop_last().skip(1) =~= s.skip(1).drop_last());
    }
}

proof fn lemma_tries_are_positive(s: CoreState, n: int)
    requires
        s.patient(),
        0 <= n <= s.pending.len(),
    ensures
        tries_left(s.pending.take(n)) >= n,
    decreases n,
{
    if n > 0 {
        lemma_tries_are_positive(s, n - 1);
        assert(s.pending.take(n).drop_last() =~= s.pending.take(n - 1));
        assert(s.pending[n - 1].attempts < MAX_ATTEMPTS);
    }
}

/// The queue does not try forever: a try that fails uses up one of the tries that its
/// addresses have left, and an address that waits has at least one. Every other address
/// moves up by one place.
pub proof fn law_queue_runs_dry(s: CoreState)
    requires
        s.patient(),
        s.pending.len() > 0,
    ensures
        tries_left(s.turned().pending) == tries_left(s.pending) - 1,
        tries_left(s.pending) >= s.pending.len(),
        s.turned().patient(),
        s.turned().pending.take(s.pending.len() - 1) == s.pending.skip(1),
        s.pending[0].attempts == MAX_ATTEMPTS - 1 ==> s.turned().pending == s.pending.skip(1),
{
    let t = s.turned();
    lemma_tries_skip(s.pending);
    lemma_tries_are_positive(s, s.pending.len() as int);
    assert(s.pending.take(s.pending.len() as int) =~= s.pending);
    if s.pending[0].attempts + 1 < MAX_ATTEMPTS {
        assert(t.pending.drop_last() =~= s.pending.skip(1));
    }
    assert(t.pending.take(s.pending.len() - 1) =~= s.pending.skip(1));
    assert forall|i: int| 0 <= i < t.pending.len() implies (#[trigger] t.pending[i]).attempts
        < MAX_ATTEMPTS by {
        if i < s.pending.len() - 1 {
            assert(t.pending[i] == s.pending[i + 1]);
        }
    }
}

/// A device keeps its place when its session changes.
proof fn lemma_first_by_device(s: CoreState, t: CoreState, q: Query)
    requires
        q is Any || q is Uuid,
        s.devices.len() == t.devices.len(),
        forall|k: int|
            0 <= k < s.devices.len() ==> (#[trigger] t.devices[k]).device == s.devices[k].device,
    ensures
        first(t.devices, q) == first(s.devices, q),
{
    lemma_first(s.devices, q);
    lemma_first(t.devices, q);
    assert forall|k: int| 0 <= k < s.devices.len() implies q.fits(#[trigger] s.devices[k])
        == q.fits(t.devices[k]) by {
        assert(t.devices[k].device == s.devices[k].device);
    }
}

/// Asking twice for a session is asking once: the second time nothing is started.
pub proof fn law_session_is_started_once(
    s: CoreState,
    adb: Seq<crate::types::DeviceView>,
    serial: Seq<char>,
)
    ensures
        ({
            let cmd = CommandView::StartSession(serial);
            let t = s.commanded(cmd, adb).0;
            t.commanded(cmd, adb) == (t, Seq::<Stop>::empty(), Seq::<Start>::empty())
        }),
{
    let cmd = CommandView::StartSession(serial);
    let t = s.commanded(cmd, adb).0;
    lemma_first(s.devices, Query::Any(serial));
    lemma_first_by_device(s, t, Query::Any(serial));
}

/// A session that has failed stays as it is while its device is listed, so that one that
/// fails at once is not started over and over. Where the user asks for it, it is stopped and
/// another one is started in its place.
pub proof fn law_failed_session_waits_for_the_user(
    s: CoreState,
    adb: Seq<crate::types::DeviceView>,
    k: int,
)
    requires
        s.distinct(),
        s.port_counter + idle(s.devices) <= u16::MAX,
        0 <= k < s.devices.len(),
        s.devices[k].session matches Some(h) && h.session_state == SESSION_STATE_FAILED,
        online(adb, s.devices[k].device.serial),
    ensures
        s.synced(adb).0.devices[k] == s.devices[k],
        ({
            let e = s.devices[k];
            let (t, stops, starts) = s.commanded(CommandView::Retry(e.device.uuid), adb);
            &&& stops.len() == 1 && stops[0].uuid == e.device.uuid
            &&& starts == seq![
                Start { device: e.device, port: s.port_counter, config: e.config },
            ]
            &&& t.devices[k].session == Some(new_handle(s.port_counter, e.config))
        }),
{
    let n = s.devices.len();
    lemma_rank_shape(s, adb, 3, n);
    let a = s.rank_started(adb, 3, n).0;
    lemma_rank_shape(a, adb, 2, n);
    let b = a.rank_started(adb, 2, n).0;
    lemma_rank_shape(b, adb, 1, n);
    let c = b.rank_started(adb, 1, n).0;
    lemma_gone_shape(c, adb, n);
    assert(a.devices[k] == s.devices[k]);
    assert(b.devices[k] == a.devices[k]);
    assert(c.devices[k] == b.devices[k]);
    let uuid = s.devices[k].device.uuid;
    lemma_first(s.devices, Query::Uuid(uuid));
    assert(Query::Uuid(uuid).fits(s.devices[k]));
    let i = first(s.devices, Query::Uuid(uuid)).unwrap() as int;
    assert(s.devices[i].device.uuid == s.devices[k].device.uuid);
    assert(i == k);
}

/// What the user chooses for a device changes nothing for any other one.
pub proof fn law_choice_is_for_one_device(
    s: CoreState,
    adb: Seq<crate::types::DeviceView>,
    uuid: u128,
    clipboard_sync: bool,
    notification_sync: bool,
    audio_sync: bool,
    volume: u16,
    k: int,
)
    requires
        0 <= k < s.devices.len(),
        s.devices[k].device.uuid != uuid,
    ensures
        s.commanded(
            CommandView::UpdateConfig { uuid, clipboard_sync, notification_sync, audio_sync, volume },
            adb,
        ).0.devices[k] == s.devices[k],
{
    lemma_first(s.devices, Query::Uuid(uuid));
}

/// Setting the audio switch of a device whose session runs to something else stops that
/// session and starts another one with the new choice. Where the switch stays as it is, the
/// session goes on.
pub proof fn law_audio_switch_restarts_session(
    s: CoreState,
    adb: Seq<crate::types::DeviceView>,
    clipboard_sync: bool,
    notification_sync: bool,
    audio_sync: bool,
    volume: u16,
    k: int,
)
    requires
        s.distinct(),
        0 <= k < s.devices.len(),
        s.devices[k].session is Some,
    ensures
        ({
            let e = s.devices[k];
            let uuid = e.device.uuid;
            let (t, stops, starts) = s.commanded(
                CommandView::UpdateConfig {
                    uuid,
                    clipboard_sync,
                    notification_sync,
                    audio_sync,
                    volume,
                },
                adb,
            );
            let config = crate::session::config::Choice {
                clipboard_sync,
                notification_sync,
                audio_enabled: audio_sync,
                volume,
                audio_codec: e.config.audio_codec,
            };
            &&& t.devices[k].config == config
            &&& e.config.audio_enabled != audio_sync ==> {
                &&& stops == seq![
                    Stop { uuid, serial: e.device.serial, port: e.session->0.port },
                ]
                &&& starts == seq![Start { device: e.device, port: s.port_counter, config }]
                &&& t.devices[k].session == Some(new_handle(s.port_counter, config))
                &&& new_handle(s.port_counter, config).audio_enabled == audio_sync
            }
            &&& e.config.audio_enabled == audio_sync && e.session->0.audio_enabled == audio_sync
                ==> {
                &&& stops.len() == 0
                &&& starts.len() == 0
                &&& t.devices[k].session is Some
                &&& t.devices[k].session->0.port == e.session->0.port
            }
        }),
{
    let uuid = s.devices[k].device.uuid;
    lemma_first(s.devices, Query::Uuid(uuid));
    assert(Query::Uuid(uuid).fits(s.devices[k]));
    let i = first(s.devices, Query::Uuid(uuid)).unwrap() as int;
    assert(s.devices[i].device.uuid == s.devices[k].device.uuid);
    assert(i == k);
}

} // verus!
