//! What the operations of the daemon's core do for the devices, their sessions and the
//! clipboards.
use super::{
    all_stops, first, hardware_id, idle, lemma_first, lemma_gone_shape, lemma_idle_some,
    lemma_rank_shape, listed, new_handle, online,
    summaries, CommandView, CoreState, Entry, Pending, Query, Start, Stop,
};
use crate::session::handle::Handle;
use crate::types::{addr_kind, DeviceAddrKind, State};
use vstd::prelude::*;

verus! {

/// A text from a phone is written to the desktop's clipboard exactly where it is neither what
/// last came from a phone nor what the desktop's clipboard was last seen to hold. Then it is
/// both; otherwise nothing changes. Devices, sessions and what waits are left alone.
pub proof fn law_new_phone_text_is_written(s: CoreState, text: Seq<char>)
    ensures
        ({
            let (t, written) = s.heard(text);
            &&& s.received != Some(text) && s.last_seen != Some(text) <==> written
            &&& written ==> t.received == Some(text) && t.last_seen == Some(text)
            &&& !written ==> t.received == s.received && t.last_seen == s.last_seen
            &&& t.devices == s.devices && t.pending == s.pending
            &&& t.port_counter == s.port_counter && t.complained_at == s.complained_at
        }),
{
}

/// Of two different texts that come from the phones one after the other the second is written,
/// whatever came before.
pub proof fn law_second_phone_text_is_written(s: CoreState, a: Seq<char>, b: Seq<char>)
    requires
        a != b,
        s.received != Some(a),
        s.last_seen != Some(a),
    ensures
        s.heard(a).1,
        s.heard(a).0.heard(b).1,
        s.heard(a).0.heard(b).0.heard(a).1,
{
}

/// A text on the desktop's clipboard goes to the phones exactly where it is neither what was
/// last seen there nor what last came from a phone. It is what was last seen from then on, and
/// what last came from a phone stays.
pub proof fn law_new_desktop_text_is_sent(s: CoreState, text: Seq<char>, now: u64)
    ensures
        ({
            let (t, sent) = s.copied(text, now);
            &&& s.last_seen != Some(text) && s.received != Some(text) <==> sent
            &&& t.last_seen == Some(text)
            &&& t.received == s.received
            &&& s.last_seen == Some(text) ==> t == s
            &&& t.devices == s.devices && t.pending == s.pending
            &&& t.port_counter == s.port_counter
        }),
{
}

/// Two different texts that are copied on the desktop one after the other both go to the
/// phones, unless a phone sent them.
pub proof fn law_every_copied_text_is_sent(
    s: CoreState,
    a: Seq<char>,
    b: Seq<char>,
    now: u64,
    later: u64,
)
    requires
        a != b,
        s.last_seen != Some(a),
        s.received != Some(a),
        s.received != Some(b),
    ensures
        s.copied(a, now).1,
        s.copied(a, now).0.copied(b, later).1,
        s.copied(a, now).0.copied(b, later).0.copied(a, later).1,
{
}

/// That the clipboard cannot be read is said exactly where 30 seconds have passed since it was
/// last said or a text was last read, and changes nothing but that time.
pub proof fn law_complaint_comes_every_half_minute(s: CoreState, now: u64)
    requires
        s.complained_at <= now,
    ensures
        ({
            let (t, said) = s.unreadable(now);
            &&& now - s.complained_at >= 30_000_000_000 <==> said
            &&& t == CoreState {
                complained_at: if said {
                    now
                } else {
                    s.complained_at
                },
                ..s
            }
        }),
{
}

/// Some device is known by the address `serial`.
pub open spec fn known_at(s: CoreState, serial: Seq<char>) -> bool {
    exists|i: int|
        0 <= i < s.devices.len() && (#[trigger] s.devices[i]).device.identity.knows(serial)
}

/// Listing a device takes nothing from the devices that are known: every one keeps its
/// session, what the user has chosen for it, its number, what it calls itself and its name.
/// All but the one that was listed stay as they are, and so does everything else.
pub proof fn law_listing_keeps_sessions_and_choices(
    s: CoreState,
    serial: Seq<char>,
    state: State,
    reply: Option<Seq<u8>>,
    uuid: u128,
)
    requires
        s.distinct(),
        forall|i: int| 0 <= i < s.devices.len() ==> (#[trigger] s.devices[i]).device.uuid != uuid,
    ensures
        ({
            let (t, number) = s.inserted(serial, state, reply, uuid);
            &&& t.devices.len() >= s.devices.len()
            &&& forall|i: int|
                0 <= i < s.devices.len() ==> {
                    let d = s.devices[i].device;
                    let e = (#[trigger] t.devices[i]).device;
                    &&& t.devices[i].session == s.devices[i].session
                    &&& t.devices[i].config == s.devices[i].config
                    &&& e.uuid == d.uuid && e.id == d.id && e.name == d.name
                    &&& d.uuid != number ==> t.devices[i] == s.devices[i]
                }
            &&& t.pending == s.pending
            &&& t.port_counter == s.port_counter
            &&& t.last_seen == s.last_seen
            &&& t.received == s.received
            &&& t.complained_at == s.complained_at
        }),
{
    let id = hardware_id(serial, state, reply);
    lemma_first(s.devices, Query::Addr(serial));
    lemma_first(s.devices, Query::Id(id));
    lemma_first(s.devices, Query::Uuid(uuid));
    let (t, number) = s.inserted(serial, state, reply, uuid);
    assert forall|i: int| 0 <= i < s.devices.len() implies {
        let d = s.devices[i].device;
        let e = (#[trigger] t.devices[i]).device;
        &&& t.devices[i].session == s.devices[i].session
        &&& t.devices[i].config == s.devices[i].config
        &&& e.uuid == d.uuid && e.id == d.id && e.name == d.name
        &&& d.uuid != number ==> t.devices[i] == s.devices[i]
    } by {
        match first(s.devices, Query::Uuid(uuid)) {
            Some(k) => {
                assert(s.devices[k as int].device.uuid != uuid);
            },
            None => {},
        }
    }
}

/// A device that is listed is one that is known by the address, or else one that calls itself
/// what the phone answers, or else a new one, with the number that is at hand, no session, and
/// the choices of someone who has made none: everything on, at 80 percent, as opus.
pub proof fn law_listed_device_is_recognised(
    s: CoreState,
    serial: Seq<char>,
    state: State,
    reply: Option<Seq<u8>>,
    uuid: u128,
    k: int,
)
    requires
        s.distinct(),
        forall|i: int| 0 <= i < s.devices.len() ==> (#[trigger] s.devices[i]).device.uuid != uuid,
    ensures
        ({
            let (t, number) = s.inserted(serial, state, reply, uuid);
            let told = crate::session::deploy::name_in(reply);
            let id = if state == State::Device && told is Some {
                told->0
            } else {
                serial
            };
            let only = forall|i: int|
                0 <= i < s.devices.len() && i != k ==> !(#[trigger] s.devices[
                    i
                ]).device.identity.knows(serial);
            // The only device that is known by the address.
            &&& 0 <= k < s.devices.len() && s.devices[k].device.identity.knows(serial) && only ==> {
                &&& number == s.devices[k].device.uuid
                &&& t.devices.len() == s.devices.len()
            }
            // None is, and this one is the only one that calls itself so.
            &&& 0 <= k < s.devices.len() && !known_at(s, serial) && s.devices[k].device.id == id && (
            forall|i: int|
                0 <= i < s.devices.len() && i != k ==> (#[trigger] s.devices[i]).device.id != id)
                ==> {
                &&& number == s.devices[k].device.uuid
                &&& t.devices.len() == s.devices.len()
            }
            // None is, and none calls itself so.
            &&& !known_at(s, serial) && (forall|i: int|
                0 <= i < s.devices.len() ==> (#[trigger] s.devices[i]).device.id != id) ==> {
                let e = t.devices[s.devices.len() as int];
                &&& number == uuid
                &&& t.devices.len() == s.devices.len() + 1
                &&& e.device.uuid == uuid && e.device.id == id && e.device.serial == serial
                &&& e.device.state == state && e.device.name.len() == 0
                &&& e.device.identity.knows(serial)
                &&& e.session is None
                &&& e.config.clipboard_sync && e.config.notification_sync && e.config.audio_enabled
                &&& e.config.volume == 80 && e.config.audio_codec == "opus"@
            }
        }),
{
    let told = crate::session::deploy::name_in(reply);
    let id = hardware_id(serial, state, reply);
    lemma_first(s.devices, Query::Addr(serial));
    lemma_first(s.devices, Query::Id(id));
    lemma_first(s.devices, Query::Uuid(uuid));
    match first(s.devices, Query::Addr(serial)) {
        Some(i) => {
            assert(s.devices[i as int].device.identity.knows(serial));
        },
        None => {},
    }
    match first(s.devices, Query::Id(id)) {
        Some(i) => {
            assert(s.devices[i as int].device.id == id);
        },
        None => {},
    }
    match first(s.devices, Query::Uuid(uuid)) {
        Some(i) => {
            assert(s.devices[i as int].device.uuid != uuid);
        },
        None => {},
    }
    if 0 <= k < s.devices.len() {
        if s.devices[k].device.identity.knows(serial) {
            assert(Query::Addr(serial).fits(s.devices[k]));
        }
        if s.devices[k].device.id == id {
            assert(Query::Id(id).fits(s.devices[k]));
        }
    }
}

/// The device that was listed has the state that it was listed with and is known by the
/// address. Of each other form it is known by the address that it was known by before. adb
/// turns to a cable where it used none, and otherwise to no address that is worse than the one
/// in use, or as good.
pub proof fn law_listed_device_is_up_to_date(
    s: CoreState,
    serial: Seq<char>,
    state: State,
    reply: Option<Seq<u8>>,
    uuid: u128,
    k: int,
)
    requires
        s.distinct(),
        0 <= k < s.devices.len(),
        s.inserted(serial, state, reply, uuid).1 == s.devices[k].device.uuid,
        s.devices[k].device.uuid != uuid,
    ensures
        ({
            let d = s.devices[k].device;
            let e = s.inserted(serial, state, reply, uuid).0.devices[k].device;
            let kind = addr_kind(serial);
            &&& e.state == state
            &&& kind == DeviceAddrKind::Usb ==> e.identity.usb == Some(serial) && e.identity.mdns
                == d.identity.mdns && e.identity.ip == d.identity.ip
            &&& kind == DeviceAddrKind::Mdns ==> e.identity.mdns == Some(serial) && e.identity.usb
                == d.identity.usb && e.identity.ip == d.identity.ip
            &&& kind == DeviceAddrKind::Ip ==> e.identity.ip == Some(serial) && e.identity.usb
                == d.identity.usb && e.identity.mdns == d.identity.mdns
            &&& e.serial == d.serial || e.serial == serial
            &&& kind == DeviceAddrKind::Usb && addr_kind(d.serial) != DeviceAddrKind::Usb
                ==> e.serial == serial
            &&& addr_kind(d.serial) == DeviceAddrKind::Usb ==> e.serial == d.serial
            &&& kind == addr_kind(d.serial) ==> e.serial == d.serial
            &&& kind == DeviceAddrKind::Ip ==> e.serial == d.serial
        }),
{
    let id = hardware_id(serial, state, reply);
    lemma_first(s.devices, Query::Addr(serial));
    lemma_first(s.devices, Query::Id(id));
    lemma_first(s.devices, Query::Uuid(uuid));
}

/// `starts` are the orders that took the core from `s` to `t`: one for each device that has a
/// session only in `t`, with ports one after the other.
spec fn grown(s: CoreState, t: CoreState, starts: Seq<Start>) -> bool {
    &&& t.devices.len() == s.devices.len()
    &&& t.port_counter == s.port_counter + starts.len()
    &&& t == CoreState { devices: t.devices, port_counter: t.port_counter, ..s }
    &&& forall|k: int|
        0 <= k < s.devices.len() ==> {
            let e = s.devices[k];
            let f = #[trigger] t.devices[k];
            &&& f.device == e.device && f.config == e.config
            &&& e.session is Some ==> f.session == e.session
            &&& e.session is None ==> (f.session matches Some(h) ==> {
                &&& h == new_handle(h.port, e.config)
                &&& starts.contains(Start { device: e.device, port: h.port, config: e.config })
            })
        }
    &&& forall|j: int|
        0 <= j < starts.len() ==> (#[trigger] starts[j]).port == s.port_counter + j && grown_by(
            s,
            t,
            starts[j],
        )
}

/// The order is for a device that has a session only in `t`.
spec fn grown_by(s: CoreState, t: CoreState, o: Start) -> bool {
    exists|k: int|
        0 <= k < s.devices.len() && s.devices[k].session is None && o.device
            == s.devices[k].device && o.config == s.devices[k].config && (
        #[trigger] t.devices[k]).session == Some(new_handle(o.port, o.config))
}

proof fn lemma_grown_twice(
    s: CoreState,
    a: CoreState,
    b: CoreState,
    x: Seq<Start>,
    y: Seq<Start>,
)
    requires
        grown(s, a, x),
        grown(a, b, y),
    ensures
        grown(s, b, x + y),
{
    let z = x + y;
    assert forall|k: int| 0 <= k < s.devices.len() implies {
        let e = s.devices[k];
        let f = #[trigger] b.devices[k];
        &&& f.device == e.device && f.config == e.config
        &&& e.session is Some ==> f.session == e.session
        &&& e.session is None ==> (f.session matches Some(h) ==> {
            &&& h == new_handle(h.port, e.config)
            &&& z.contains(Start { device: e.device, port: h.port, config: e.config })
        })
    } by {
        let e = s.devices[k];
        let g = a.devices[k];
        let f = b.devices[k];
        if e.session is None && f.session is Some {
            let o = Start { device: e.device, port: f.session->0.port, config: e.config };
            if g.session is Some {
                let j = choose|j: int| 0 <= j < x.len() && x[j] == o;
                assert(z[j] == o);
            } else {
                let j = choose|j: int| 0 <= j < y.len() && y[j] == o;
                assert(z[x.len() + j] == o);
            }
        }
    }
    assert forall|j: int| 0 <= j < z.len() implies (#[trigger] z[j]).port == s.port_counter + j
        && grown_by(s, b, z[j]) by {
        if j < x.len() {
            assert(z[j] == x[j]);
            let k = choose|k: int|
                0 <= k < s.devices.len() && s.devices[k].session is None && x[j].device
                    == s.devices[k].device && x[j].config == s.devices[k].config && (
                #[trigger] a.devices[k]).session == Some(new_handle(x[j].port, x[j].config));
            assert(b.devices[k].session == a.devices[k].session);
        } else {
            let i = j - x.len();
            assert(z[j] == y[i]);
            let k = choose|k: int|
                0 <= k < a.devices.len() && a.devices[k].session is None && y[i].device
                    == a.devices[k].device && y[i].config == a.devices[k].config && (
                #[trigger] b.devices[k]).session == Some(new_handle(y[i].port, y[i].config));
            assert(s.devices[k].session is None);
            assert(b.devices[k].session is Some);
        }
    }
}

proof fn lemma_grown_none(s: CoreState)
    ensures
        grown(s, s, Seq::empty()),
{
}

proof fn lemma_grown_once(s: CoreState, i: nat)
    requires
        i < s.devices.len(),
        s.devices[i as int].session is None,
        s.port_counter < u16::MAX,
    ensures
        grown(s, s.started(i).0, listed(s.started(i).1)),
{
    let (t, o) = s.started(i);
    let starts = listed(o);
    assert(starts[0] == o->0);
    assert(t.devices[i as int].session == Some(new_handle(s.port_counter, s.devices[
        i as int
    ].config)));
}

proof fn lemma_rank_grows(
    s: CoreState,
    adb: Seq<crate::types::DeviceView>,
    rank: u8,
    n: nat,
)
    requires
        s.distinct(),
        n <= s.devices.len(),
        s.port_counter + idle(s.devices) <= u16::MAX,
    ensures
        grown(s, s.rank_started(adb, rank, n).0, s.rank_started(adb, rank, n).1),
        forall|j: int|
            0 <= j < s.rank_started(adb, rank, n).1.len() ==> {
                let serial = (#[trigger] s.rank_started(adb, rank, n).1[j]).device.serial;
                addr_kind(serial).rank() == rank && online(adb, serial)
            },
    decreases n,
{
    if n == 0 {
        lemma_grown_none(s);
    } else {
        let m = (n - 1) as nat;
        lemma_rank_grows(s, adb, rank, m);
        lemma_rank_shape(s, adb, rank, m);
        let (a, x) = s.rank_started(adb, rank, m);
        let e = a.devices[m as int];
        if e.session is None && addr_kind(e.device.serial).rank() == rank && online(
            adb,
            e.device.serial,
        ) {
            lemma_idle_some(a.devices, m as int);
            lemma_grown_once(a, m);
            let (b, o) = a.started(m);
            lemma_grown_twice(s, a, b, x, listed(o));
            let all = x + listed(o);
            assert forall|j: int| 0 <= j < all.len() implies {
                let serial = (#[trigger] all[j]).device.serial;
                addr_kind(serial).rank() == rank && online(adb, serial)
            } by {
                if j < x.len() {
                    assert(all[j] == x[j]);
                }
            }
        }
    }
}

/// `stops` are the orders that took the core from `s` to `t`: one for each device that has a
/// session only in `s`.
spec fn shrunk(s: CoreState, t: CoreState, stops: Seq<Stop>) -> bool {
    &&& t.devices.len() == s.devices.len()
    &&& t == CoreState { devices: t.devices, ..s }
    &&& forall|k: int|
        0 <= k < s.devices.len() ==> {
            let e = s.devices[k];
            let f = #[trigger] t.devices[k];
            &&& f.device == e.device && f.config == e.config
            &&& f.session is Some ==> f.session == e.session
            &&& f.session is None ==> (e.session matches Some(h) ==> stops.contains(
                Stop { uuid: e.device.uuid, serial: e.device.serial, port: h.port },
            ))
        }
    &&& forall|j: int| 0 <= j < stops.len() ==> shrunk_by(s, t, #[trigger] stops[j])
}

/// The order is for a device that has a session only in `s`.
spec fn shrunk_by(s: CoreState, t: CoreState, o: Stop) -> bool {
    exists|k: int|
        0 <= k < s.devices.len() && (#[trigger] t.devices[k]).session is None && o.uuid
            == s.devices[k].device.uuid && o.serial == s.devices[k].device.serial && (
        s.devices[k].session matches Some(h) && h.port == o.port)
}

proof fn lemma_gone_shrinks(s: CoreState, adb: Seq<crate::types::DeviceView>, n: nat)
    requires
        n <= s.devices.len(),
    ensures
        shrunk(s, s.gone_stopped(adb, n).0, s.gone_stopped(adb, n).1),
        forall|j: int|
            0 <= j < s.gone_stopped(adb, n).1.len() ==> crate::device_map::place_of(
                adb,
                (#[trigger] s.gone_stopped(adb, n).1[j]).serial,
            ) is None,
        s.gone_stopped(adb, n).1.len() <= n,
    decreases n,
{
    if n > 0 {
        let m = (n - 1) as nat;
        lemma_gone_shrinks(s, adb, m);
        lemma_gone_shape(s, adb, m);
        let (a, x) = s.gone_stopped(adb, m);
        let (b, all) = s.gone_stopped(adb, n);
        let e = a.devices[m as int];
        assert(e == s.devices[m as int]);
        if e.session is Some && crate::device_map::place_of(adb, e.device.serial) is None {
            let o = Stop {
                uuid: e.device.uuid,
                serial: e.device.serial,
                port: e.session->0.port,
            };
            assert(all =~= x.push(o));
            assert(all[x.len() as int] == o);
            assert forall|k: int| 0 <= k < s.devices.len() implies {
                let e = s.devices[k];
                let f = #[trigger] b.devices[k];
                &&& f.device == e.device && f.config == e.config
                &&& f.session is Some ==> f.session == e.session
                &&& f.session is None ==> (e.session matches Some(h) ==> all.contains(
                    Stop { uuid: e.device.uuid, serial: e.device.serial, port: h.port },
                ))
            } by {
                let f = s.devices[k];
                assert(a.devices[k].device == f.device);
                if k != m && a.devices[k].session is None && f.session is Some {
                    let p = Stop {
                        uuid: f.device.uuid,
                        serial: f.device.serial,
                        port: f.session->0.port,
                    };
                    let j = choose|j: int| 0 <= j < x.len() && x[j] == p;
                    assert(all[j] == p);
                }
            }
            assert forall|j: int| 0 <= j < all.len() implies shrunk_by(s, b, #[trigger] all[j])
                && crate::device_map::place_of(adb, all[j].serial) is None by {
                if j < x.len() {
                    assert(all[j] == x[j]);
                    let k = choose|k: int|
                        0 <= k < s.devices.len() && (#[trigger] a.devices[k]).session is None
                            && x[j].uuid == s.devices[k].device.uuid && x[j].serial
                            == s.devices[k].device.serial && (s.devices[k].session matches Some(h)
                            && h.port == x[j].port);
                    assert(b.devices[k].session is None);
                } else {
                    assert(b.devices[m as int].session is None);
                }
            }
        } else {
            assert(all =~= x);
        }
    }
}

/// What adb lists decides about the sessions, device by device. A device that is listed as
/// connected and has no session gets one, and the order to start it names the device, the port
/// of the session and the user's choices, which the session takes over. A device that is not
/// listed any more loses its session, and the order to stop it names the device and the port.
/// All others keep what they have.
pub proof fn law_sessions_are_brought_in_line(
    s: CoreState,
    adb: Seq<crate::types::DeviceView>,
    k: int,
    d: int,
)
    requires
        s.distinct(),
        s.port_counter + idle(s.devices) <= u16::MAX,
        crate::device_map::distinct(adb),
        0 <= k < s.devices.len(),
    ensures
        ({
            let (t, starts, stops) = s.synced(adb);
            let e = s.devices[k];
            let f = t.devices[k];
            &&& t.devices.len() == s.devices.len()
            &&& f.device == e.device && f.config == e.config
            &&& 0 <= d < adb.len() && adb[d].serial == e.device.serial && adb[d].state
                == State::Device && e.session is None ==> {
                &&& f.session matches Some(h)
                &&& h.clipboard_enabled == e.config.clipboard_sync
                &&& h.notification_enabled == e.config.notification_sync
                &&& h.audio_enabled == e.config.audio_enabled
                &&& h.volume == e.config.volume
                &&& h.session_state == 1
                &&& starts.contains(Start { device: e.device, port: h.port, config: e.config })
            }
            &&& 0 <= d < adb.len() && adb[d].serial == e.device.serial && e.session is Some
                ==> f == e
            &&& 0 <= d < adb.len() && adb[d].serial == e.device.serial && adb[d].state
                != State::Device && e.session is None ==> f == e
            &&& (forall|i: int|
                0 <= i < adb.len() ==> (#[trigger] adb[i]).serial != e.device.serial) ==> {
                &&& f.session is None
                &&& e.session matches Some(h) ==> stops.contains(
                    Stop { uuid: e.device.uuid, serial: e.device.serial, port: h.port },
                )
            }
        }),
{
    lemma_synced(s, adb);
    let n = s.devices.len();
    let a = s.rank_started(adb, 3, n).0;
    let b = a.rank_started(adb, 2, n).0;
    let c = b.rank_started(adb, 1, n).0;
    let e = s.devices[k];
    let serial = e.device.serial;
    crate::device_map::lemma_place_of(adb, serial);
    if 0 <= d < adb.len() && adb[d].serial == serial {
        let p = crate::device_map::place_of(adb, serial);
        assert(p is Some);
        assert(adb[p->0 as int].serial == adb[d].serial);
        assert(p->0 == d);
    }
    assert(c.devices[k].device == e.device);
}

proof fn lemma_synced(s: CoreState, adb: Seq<crate::types::DeviceView>)
    requires
        s.distinct(),
        s.port_counter + idle(s.devices) <= u16::MAX,
    ensures
        ({
            let n = s.devices.len();
            let (a, x) = s.rank_started(adb, 3, n);
            let (b, y) = a.rank_started(adb, 2, n);
            let (c, z) = b.rank_started(adb, 1, n);
            let (t, stops) = c.gone_stopped(adb, n);
            &&& grown(s, c, x + y + z)
            &&& shrunk(c, t, stops)
            &&& forall|k: int|
                0 <= k < n ==> {
                    let e = s.devices[k];
                    let f = #[trigger] c.devices[k];
                    let serial = e.device.serial;
                    f.session is Some <==> e.session is Some || online(adb, serial)
                }
            &&& forall|k: int|
                0 <= k < n ==> {
                    let g = c.devices[k];
                    let f = #[trigger] t.devices[k];
                    f.session is Some <==> g.session is Some && crate::device_map::place_of(
                        adb,
                        g.device.serial,
                    ) is Some
                }
            &&& forall|j: int|
                0 <= j < stops.len() ==> crate::device_map::place_of(
                    adb,
                    (#[trigger] stops[j]).serial,
                ) is None
            &&& forall|j: int|
                0 <= j < x.len() ==> addr_kind((#[trigger] x[j]).device.serial).rank() == 3
                    && online(adb, x[j].device.serial)
            &&& forall|j: int|
                0 <= j < y.len() ==> addr_kind((#[trigger] y[j]).device.serial).rank() == 2
                    && online(adb, y[j].device.serial)
            &&& forall|j: int|
                0 <= j < z.len() ==> addr_kind((#[trigger] z[j]).device.serial).rank() == 1
                    && online(adb, z[j].device.serial)
        }),
{
    let n = s.devices.len();
    lemma_rank_shape(s, adb, 3, n);
    lemma_rank_grows(s, adb, 3, n);
    let (a, x) = s.rank_started(adb, 3, n);
    lemma_rank_shape(a, adb, 2, n);
    lemma_rank_grows(a, adb, 2, n);
    let (b, y) = a.rank_started(adb, 2, n);
    lemma_rank_shape(b, adb, 1, n);
    lemma_rank_grows(b, adb, 1, n);
    let (c, z) = b.rank_started(adb, 1, n);
    lemma_gone_shape(c, adb, n);
    lemma_gone_shrinks(c, adb, n);
    lemma_grown_twice(s, a, b, x, y);
    lemma_grown_twice(s, b, c, x + y, z);
    assert forall|k: int| 0 <= k < n implies {
        let e = s.devices[k];
        let f = #[trigger] c.devices[k];
        let serial = e.device.serial;
        f.session is Some <==> e.session is Some || online(adb, serial)
    } by {
        let serial = s.devices[k].device.serial;
        assert(a.devices[k].device == s.devices[k].device);
        assert(b.devices[k].device == s.devices[k].device);
        assert(addr_kind(serial).rank() == 3 || addr_kind(serial).rank() == 2 || addr_kind(
            serial,
        ).rank() == 1);
    }
}

/// No order is made without need, and none twice. Each order to start is for a device that adb
/// lists as connected and that had no session, those on a cable first, then those with a
/// service name; the ports follow one another from the next free one on. Each order to stop is
/// for a device that adb does not list and that had a session.
pub proof fn law_no_order_without_need(s: CoreState, adb: Seq<crate::types::DeviceView>, j: int)
    requires
        s.distinct(),
        s.port_counter + idle(s.devices) <= u16::MAX,
    ensures
        ({
            let (t, starts, stops) = s.synced(adb);
            &&& t.port_counter == s.port_counter + starts.len()
            &&& 0 <= j < starts.len() ==> {
                let o = starts[j];
                &&& o.port == s.port_counter + j
                &&& exists|d: int|
                    0 <= d < adb.len() && (#[trigger] adb[d]).serial == o.device.serial
                        && adb[d].state == State::Device
                &&& exists|k: int|
                    0 <= k < s.devices.len() && (#[trigger] s.devices[k]).session is None
                        && s.devices[k].device == o.device && s.devices[k].config == o.config
                &&& j > 0 ==> addr_kind(starts[j - 1].device.serial).rank() >= addr_kind(
                    o.device.serial,
                ).rank()
            }
            &&& 0 <= j < stops.len() ==> {
                let o = stops[j];
                &&& forall|d: int| 0 <= d < adb.len() ==> (#[trigger] adb[d]).serial != o.serial
                &&& exists|k: int|
                    0 <= k < s.devices.len() && (#[trigger] s.devices[k]).device.uuid == o.uuid
                        && s.devices[k].device.serial == o.serial && (
                    s.devices[k].session matches Some(h) && h.port == o.port)
            }
            &&& t.pending == s.pending && t.last_seen == s.last_seen && t.received == s.received
        }),
{
    lemma_synced(s, adb);
    let n = s.devices.len();
    let (a, x) = s.rank_started(adb, 3, n);
    let (b, y) = a.rank_started(adb, 2, n);
    let (c, z) = b.rank_started(adb, 1, n);
    let (t, stops) = c.gone_stopped(adb, n);
    let starts = x + y + z;
    if 0 <= j < starts.len() {
        let o = starts[j];
        assert(grown_by(s, c, o));
        if j < x.len() {
            assert(o == x[j]);
        } else if j < x.len() + y.len() {
            assert(o == y[j - x.len()]);
        } else {
            assert(o == z[j - x.len() - y.len()]);
        }
        assert(online(adb, o.device.serial));
        crate::device_map::lemma_place_of(adb, o.device.serial);
        let d = crate::device_map::place_of(adb, o.device.serial)->0 as int;
        assert(adb[d].serial == o.device.serial);
        let k = choose|k: int|
            0 <= k < s.devices.len() && s.devices[k].session is None && o.device
                == s.devices[k].device && o.config == s.devices[k].config && (
            #[trigger] c.devices[k]).session == Some(new_handle(o.port, o.config));
        assert(s.devices[k].session is None);
        if j > 0 {
            let p = starts[j - 1];
            if j - 1 < x.len() {
                assert(p == x[j - 1]);
            } else if j - 1 < x.len() + y.len() {
                assert(p == y[j - 1 - x.len()]);
            } else {
                assert(p == z[j - 1 - x.len() - y.len()]);
            }
        }
    }
    if 0 <= j < stops.len() {
        let o = stops[j];
        assert(shrunk_by(c, t, o));
        let k = choose|k: int|
            0 <= k < c.devices.len() && (#[trigger] t.devices[k]).session is None && o.uuid
                == c.devices[k].device.uuid && o.serial == c.devices[k].device.serial && (
            c.devices[k].session matches Some(h) && h.port == o.port);
        assert(crate::device_map::place_of(adb, o.serial) is None);
        crate::device_map::lemma_place_of(adb, o.serial);
        assert(c.devices[k].device == s.devices[k].device);
        assert(!online(adb, o.serial));
        assert(s.devices[k].session is Some);
        assert(c.devices[k].session == s.devices[k].session);
    }
}

/// The core once the devices `ds[0]` to `ds[n - 1]` have been listed, none of which was asked
/// who it is.
pub open spec fn relisted(s: CoreState, ds: Seq<crate::types::DeviceView>, n: nat, uuid: u128) -> CoreState
    decreases n,
{
    if n == 0 {
        s
    } else {
        let d = ds[n - 1];
        relisted(s, ds, (n - 1) as nat, uuid).inserted(d.serial, d.state, None, uuid).0
    }
}

/// Some device is known by the address, as one of its form, and adb uses it or one that is at
/// least as good.
pub open spec fn settled_at(s: CoreState, serial: Seq<char>) -> bool {
    &&& known_at(s, serial)
    &&& forall|i: int|
        0 <= i < s.devices.len() && (#[trigger] s.devices[i]).device.identity.knows(serial) ==> {
            &&& s.devices[i].device.identity.of_kind(addr_kind(serial)) == Some(serial)
            &&& addr_kind(serial).rank() <= addr_kind(s.devices[i].device.serial).rank()
        }
}

/// The two know the same devices, with the same addresses, sessions and choices.
pub open spec fn same_but_states(s: CoreState, t: CoreState) -> bool {
    &&& t.devices.len() == s.devices.len()
    &&& t == CoreState { devices: t.devices, ..s }
    &&& forall|k: int|
        0 <= k < s.devices.len() ==> {
            let e = s.devices[k];
            let f = #[trigger] t.devices[k];
            &&& f.session == e.session && f.config == e.config
            &&& f.device == crate::types::DeviceView { state: f.device.state, ..e.device }
        }
}

proof fn lemma_relisted(s: CoreState, ds: Seq<crate::types::DeviceView>, n: nat, uuid: u128)
    requires
        n <= ds.len(),
        forall|j: int| 0 <= j < ds.len() ==> settled_at(s, (#[trigger] ds[j]).serial),
    ensures
        same_but_states(s, relisted(s, ds, n, uuid)),
    decreases n,
{
    if n > 0 {
        let m = (n - 1) as nat;
        lemma_relisted(s, ds, m, uuid);
        let a = relisted(s, ds, m, uuid);
        let d = ds[m as int];
        assert(settled_at(s, d.serial));
        let i = choose|i: int|
            0 <= i < s.devices.len() && (#[trigger] s.devices[i]).device.identity.knows(d.serial);
        lemma_first(a.devices, Query::Addr(d.serial));
        assert(a.devices[i].device.identity == s.devices[i].device.identity);
        assert(Query::Addr(d.serial).fits(a.devices[i]));
        let k = first(a.devices, Query::Addr(d.serial))->0 as int;
        assert(a.devices[k].device.identity == s.devices[k].device.identity);
        assert(s.devices[k].device.identity.knows(d.serial));
        let e = a.devices[k];
        assert(e.device.identity.merged(crate::types::Identity::only(d.serial))
            =~= e.device.identity);
        assert(e.seen(d.serial, d.state).device =~= (crate::types::DeviceView {
            state: d.state,
            ..e.device
        }));
    }
}

/// Everything is as it should be: what is connected has a session, and what has one is listed.
proof fn lemma_nothing_to_do(s: CoreState, adb: Seq<crate::types::DeviceView>)
    requires
        forall|k: int|
            0 <= k < s.devices.len() ==> {
                let e = #[trigger] s.devices[k];
                &&& online(adb, e.device.serial) ==> e.session is Some
                &&& e.session is Some ==> crate::device_map::place_of(
                    adb,
                    e.device.serial,
                ) is Some
            },
    ensures
        s.synced(adb) == (s, Seq::<Start>::empty(), Seq::<Stop>::empty()),
{
    let n = s.devices.len();
    lemma_nothing_starts(s, adb, 3, n);
    lemma_nothing_starts(s, adb, 2, n);
    lemma_nothing_starts(s, adb, 1, n);
    lemma_nothing_stops(s, adb, n);
    let none = Seq::<Start>::empty();
    assert(none + none + none =~= none);
}

proof fn lemma_nothing_starts(
    s: CoreState,
    adb: Seq<crate::types::DeviceView>,
    rank: u8,
    n: nat,
)
    requires
        n <= s.devices.len(),
        forall|k: int|
            0 <= k < s.devices.len() ==> {
                let e = #[trigger] s.devices[k];
                online(adb, e.device.serial) ==> e.session is Some
            },
    ensures
        s.rank_started(adb, rank, n) == (s, Seq::<Start>::empty()),
    decreases n,
{
    if n > 0 {
        lemma_nothing_starts(s, adb, rank, (n - 1) as nat);
        let e = s.devices[n - 1];
    }
}

proof fn lemma_nothing_stops(s: CoreState, adb: Seq<crate::types::DeviceView>, n: nat)
    requires
        n <= s.devices.len(),
        forall|k: int|
            0 <= k < s.devices.len() ==> {
                let e = #[trigger] s.devices[k];
                e.session is Some ==> crate::device_map::place_of(adb, e.device.serial) is Some
            },
    ensures
        s.gone_stopped(adb, n) == (s, Seq::<Stop>::empty()),
    decreases n,
{
    if n > 0 {
        lemma_nothing_stops(s, adb, (n - 1) as nat);
        let e = s.devices[n - 1];
    }
}

/// As long as adb lists the same, nothing happens: once the sessions were brought in line,
/// listing the same devices again, any number of them, and bringing the sessions in line again
/// starts and stops nothing, and every device keeps its session and its choices.
pub proof fn law_same_list_changes_no_session(
    s: CoreState,
    adb: Seq<crate::types::DeviceView>,
    n: nat,
    uuid: u128,
)
    requires
        s.distinct(),
        s.port_counter + idle(s.devices) <= u16::MAX,
        n <= adb.len(),
        forall|j: int| 0 <= j < adb.len() ==> settled_at(s, (#[trigger] adb[j]).serial),
    ensures
        ({
            let t = s.synced(adb).0;
            let u = relisted(t, adb, n, uuid);
            let (v, starts, stops) = u.synced(adb);
            &&& starts.len() == 0
            &&& stops.len() == 0
            &&& v == u
            &&& v.port_counter == t.port_counter
            &&& v.devices.len() == t.devices.len()
            &&& forall|k: int|
                0 <= k < t.devices.len() ==> (#[trigger] v.devices[k]).session
                    == t.devices[k].session && v.devices[k].config == t.devices[k].config
        }),
{
    let t = s.synced(adb).0;
    lemma_synced(s, adb);
    let m = s.devices.len();
    let a = s.rank_started(adb, 3, m).0;
    let b = a.rank_started(adb, 2, m).0;
    let c = b.rank_started(adb, 1, m).0;
    assert forall|k: int| 0 <= k < t.devices.len() implies (#[trigger] t.devices[k]).device
        == s.devices[k].device && (online(adb, s.devices[k].device.serial)
        ==> t.devices[k].session is Some) && (t.devices[k].session is Some
        ==> crate::device_map::place_of(adb, s.devices[k].device.serial) is Some) by {
        assert(c.devices[k].device == s.devices[k].device);
    }
    assert forall|j: int| 0 <= j < adb.len() implies settled_at(t, (#[trigger] adb[j]).serial) by {
        let serial = adb[j].serial;
        assert(settled_at(s, serial));
        let i = choose|i: int|
            0 <= i < s.devices.len() && (#[trigger] s.devices[i]).device.identity.knows(serial);
        assert(t.devices[i].device.identity.knows(serial));
        assert forall|i: int|
            0 <= i < t.devices.len() && (#[trigger] t.devices[i]).device.identity.knows(
                serial,
            ) implies {
            &&& t.devices[i].device.identity.of_kind(addr_kind(serial)) == Some(serial)
            &&& addr_kind(serial).rank() <= addr_kind(t.devices[i].device.serial).rank()
        } by {
            assert(s.devices[i].device.identity.knows(serial));
        }
    }
    lemma_relisted(t, adb, n, uuid);
    let u = relisted(t, adb, n, uuid);
    assert forall|k: int| 0 <= k < u.devices.len() implies {
        let e = #[trigger] u.devices[k];
        &&& online(adb, e.device.serial) ==> e.session is Some
        &&& e.session is Some ==> crate::device_map::place_of(adb, e.device.serial) is Some
    } by {
        assert(t.devices[k].device == s.devices[k].device);
        assert(u.devices[k].device.serial == t.devices[k].device.serial);
    }
    lemma_nothing_to_do(u, adb);
}

/// An address that the user wants to connect to joins the end of the queue, untried, unless it
/// waits there or is no address of the network. Nothing else changes.
pub proof fn law_wanted_address_is_queued(
    s: CoreState,
    adb: Seq<crate::types::DeviceView>,
    addr: Seq<char>,
)
    ensures
        ({
            let (t, stops, starts) = s.commanded(CommandView::Connect(addr), adb);
            let waits = exists|i: int|
                0 <= i < s.pending.len() && (#[trigger] s.pending[i]).addr == addr;
            &&& stops.len() == 0 && starts.len() == 0
            &&& addr_kind(addr) != DeviceAddrKind::Usb && !waits ==> t == CoreState {
                pending: s.pending.push(Pending { addr, attempts: 0 }),
                ..s
            }
            &&& addr_kind(addr) == DeviceAddrKind::Usb || waits ==> t == s
        }),
{
}

/// The device at `k` goes by the text: adb uses it as its address, the device calls itself so,
/// or it is known by it.
pub open spec fn goes_by(s: CoreState, k: int, text: Seq<char>) -> bool {
    let d = s.devices[k].device;
    d.serial == text || d.id == text || d.identity.usb == Some(text) || d.identity.mdns == Some(
        text,
    ) || d.identity.ip == Some(text)
}

/// Where the user disconnects a device, its session is stopped, and it is the only order. The
/// address leaves the queue, and the others wait as before. Nothing else changes.
pub proof fn law_disconnected_device_loses_its_session(
    s: CoreState,
    adb: Seq<crate::types::DeviceView>,
    text: Seq<char>,
    k: int,
)
    requires
        forall|i: int|
            0 <= i < s.devices.len() && i != k && goes_by(s, i, text) ==> (
            #[trigger] s.devices[i]).session is None,
    ensures
        ({
            let (t, stops, starts) = s.commanded(CommandView::Disconnect(text), adb);
            &&& starts.len() == 0
            &&& t.pending == s.pending.filter(|p: Pending| p.addr != text)
            &&& t == CoreState { devices: t.devices, pending: t.pending, ..s }
            &&& 0 <= k < s.devices.len() && goes_by(s, k, text) ==> (
            s.devices[k].session matches Some(h) ==> {
                let e = s.devices[k];
                &&& stops == seq![
                    Stop { uuid: e.device.uuid, serial: e.device.serial, port: h.port },
                ]
                &&& t.devices == s.devices.update(k, Entry { session: None, ..e })
            })
            &&& !(0 <= k < s.devices.len() && goes_by(s, k, text) && s.devices[k].session is Some)
                ==> stops.len() == 0 && t.devices == s.devices
        }),
{
    lemma_first(s.devices, Query::AnyRunning(text));
    match first(s.devices, Query::AnyRunning(text)) {
        Some(i) => {
            assert(goes_by(s, i as int, text));
            assert(s.devices[i as int].session is Some);
        },
        None => {},
    }
    if 0 <= k < s.devices.len() && goes_by(s, k, text) && s.devices[k].session is Some {
        assert(Query::AnyRunning(text).fits(s.devices[k]));
    }
}

/// Where the user tries again, only a session that has failed is touched. It is stopped; where
/// adb lists the device as connected another one is started, on the next port and with the
/// user's choices.
pub proof fn law_only_failed_session_is_tried_again(
    s: CoreState,
    adb: Seq<crate::types::DeviceView>,
    k: int,
    d: int,
)
    requires
        s.distinct(),
        crate::device_map::distinct(adb),
        0 <= k < s.devices.len(),
    ensures
        ({
            let e = s.devices[k];
            let (t, stops, starts) = s.commanded(CommandView::Retry(e.device.uuid), adb);
            let stopped = seq![
                Stop { uuid: e.device.uuid, serial: e.device.serial, port: e.session->0.port },
            ];
            &&& forall|i: int|
                0 <= i < s.devices.len() && i != k ==> #[trigger] t.devices[i] == s.devices[i]
            &&& t.devices.len() == s.devices.len()
            &&& t.devices[k].device == e.device && t.devices[k].config == e.config
            &&& e.session is None || e.session->0.session_state != 3 ==> t == s && stops.len() == 0
                && starts.len() == 0
            &&& e.session is Some && e.session->0.session_state == 3 ==> {
                &&& stops == stopped
                &&& 0 <= d < adb.len() && adb[d].serial == e.device.serial && adb[d].state
                    == State::Device ==> {
                    &&& starts == seq![
                        Start { device: e.device, port: s.port_counter, config: e.config },
                    ]
                    &&& t.devices[k].session matches Some(h) && h.port == s.port_counter
                        && h.session_state == 1
                }
                &&& (forall|i: int|
                    0 <= i < adb.len() && (#[trigger] adb[i]).serial == e.device.serial
                        ==> adb[i].state != State::Device) ==> {
                    &&& starts.len() == 0
                    &&& t.devices[k].session is None
                }
            }
        }),
{
    let e = s.devices[k];
    let uuid = e.device.uuid;
    lemma_at_uuid(s, k);
    crate::device_map::lemma_place_of(adb, e.device.serial);
    if 0 <= d < adb.len() && adb[d].serial == e.device.serial {
        let p = crate::device_map::place_of(adb, e.device.serial);
        assert(p is Some);
        assert(adb[p->0 as int].serial == adb[d].serial);
        assert(p->0 == d);
    }
}

proof fn lemma_at_uuid(s: CoreState, k: int)
    requires
        s.distinct(),
        0 <= k < s.devices.len(),
    ensures
        first(s.devices, Query::Uuid(s.devices[k].device.uuid)) == Some(k as nat),
{
    let uuid = s.devices[k].device.uuid;
    lemma_first(s.devices, Query::Uuid(uuid));
    assert(Query::Uuid(uuid).fits(s.devices[k]));
    let i = first(s.devices, Query::Uuid(uuid)).unwrap() as int;
    assert(s.devices[i].device.uuid == s.devices[k].device.uuid);
    if i < k {
        assert(s.devices[i].device.uuid != s.devices[k].device.uuid);
    }
    if k < i {
        assert(s.devices[k].device.uuid != s.devices[i].device.uuid);
    }
}

/// Where the user asks for the session of a device that goes by the text, it is started if it
/// has none, on the next port and with the user's choices; one that runs is left alone.
pub proof fn law_wanted_session_is_started(
    s: CoreState,
    adb: Seq<crate::types::DeviceView>,
    text: Seq<char>,
    k: int,
)
    requires
        0 <= k < s.devices.len(),
        goes_by(s, k, text),
        forall|i: int| 0 <= i < s.devices.len() && i != k ==> !#[trigger] goes_by(s, i, text),
    ensures
        ({
            let e = s.devices[k];
            let (t, stops, starts) = s.commanded(CommandView::StartSession(text), adb);
            &&& stops.len() == 0
            &&& e.session is Some ==> t == s && starts.len() == 0
            &&& e.session is None ==> {
                &&& starts == seq![
                    Start { device: e.device, port: s.port_counter, config: e.config },
                ]
                &&& t.devices[k].session matches Some(h)
                &&& h.port == s.port_counter && h.session_state == 1 && h.audio_latency == 0
                &&& h.clipboard_enabled == e.config.clipboard_sync
                &&& h.notification_enabled == e.config.notification_sync
                &&& h.audio_enabled == e.config.audio_enabled
                &&& h.volume == e.config.volume
                &&& t.devices == s.devices.update(k, Entry { session: Some(h), ..e })
                &&& s.port_counter < u16::MAX ==> t.port_counter == s.port_counter + 1
            }
        }),
{
    lemma_first(s.devices, Query::Any(text));
    assert(Query::Any(text).fits(s.devices[k]));
    let i = first(s.devices, Query::Any(text)).unwrap() as int;
    assert(goes_by(s, i, text));
}

/// What the user has chosen for a device holds from then on, and a session that goes on takes
/// it over at once.
pub proof fn law_choice_reaches_the_session(
    s: CoreState,
    adb: Seq<crate::types::DeviceView>,
    clipboard_sync: bool,
    notification_sync: bool,
    audio_sync: bool,
    volume: u16,
    k: int,
)
    requires
        s.distinct(),
        0 <= k < s.devices.len(),
    ensures
        ({
            let e = s.devices[k];
            let (t, stops, starts) = s.commanded(
                CommandView::UpdateConfig {
                    uuid: e.device.uuid,
                    clipboard_sync,
                    notification_sync,
                    audio_sync,
                    volume,
                },
                adb,
            );
            let c = t.devices[k].config;
            &&& c.clipboard_sync == clipboard_sync && c.notification_sync == notification_sync
            &&& c.audio_enabled == audio_sync && c.volume == volume
            &&& c.audio_codec == e.config.audio_codec
            &&& t.devices[k].device == e.device
            &&& e.session is Some <==> t.devices[k].session is Some
            &&& t.devices[k].session matches Some(h) ==> {
                &&& h.clipboard_enabled == clipboard_sync
                &&& h.notification_enabled == notification_sync
                &&& h.audio_enabled == audio_sync
                &&& h.volume == volume
            }
            &&& e.session is Some && e.session->0.audio_enabled == audio_sync
                && e.config.audio_enabled == audio_sync ==> {
                &&& starts.len() == 0 && stops.len() == 0
                &&& t.devices[k].session->0.session_state == e.session->0.session_state
                &&& t.devices[k].session->0.port == e.session->0.port
            }
            &&& e.session is None ==> starts.len() == 0 && stops.len() == 0
        }),
{
    lemma_at_uuid(s, k);
}

/// Where all sessions are started anew, each one is stopped and another one is started for its
/// device, with the user's choices; a device without one gets none.
pub proof fn law_every_session_is_started_anew(
    s: CoreState,
    adb: Seq<crate::types::DeviceView>,
    k: int,
)
    requires
        s.distinct(),
        s.port_counter + s.devices.len() <= u16::MAX,
        0 <= k < s.devices.len(),
    ensures
        ({
            let e = s.devices[k];
            let (t, stops, starts) = s.commanded(CommandView::RestartAllSessions, adb);
            &&& t.devices.len() == s.devices.len()
            &&& stops.len() == starts.len()
            &&& t.devices[k].device == e.device && t.devices[k].config == e.config
            &&& e.session is None ==> t.devices[k] == e
            &&& e.session matches Some(h) ==> {
                &&& t.devices[k].session matches Some(g)
                &&& g.port >= s.port_counter
                &&& g.session_state == 1
                &&& g.audio_enabled == e.config.audio_enabled
                &&& g.clipboard_enabled == e.config.clipboard_sync
                &&& g.notification_enabled == e.config.notification_sync
                &&& g.volume == e.config.volume
                &&& stops.contains(
                    Stop { uuid: e.device.uuid, serial: e.device.serial, port: h.port },
                )
                &&& starts.contains(Start { device: e.device, port: g.port, config: e.config })
            }
        }),
{
    lemma_all_restarted(s, s.devices.len());
}

proof fn lemma_all_restarted(s: CoreState, n: nat)
    requires
        s.distinct(),
        s.port_counter + s.devices.len() <= u16::MAX,
        n <= s.devices.len(),
    ensures
        ({
            let (t, stops, starts) = s.all_restarted(n);
            &&& t.devices.len() == s.devices.len()
            &&& s.port_counter <= t.port_counter <= s.port_counter + n
            &&& stops.len() == starts.len()
            &&& forall|k: int|
                n <= k < s.devices.len() ==> #[trigger] t.devices[k] == s.devices[k]
            &&& forall|k: int|
                0 <= k < n ==> {
                    let e = s.devices[k];
                    let f = #[trigger] t.devices[k];
                    &&& f.device == e.device && f.config == e.config
                    &&& e.session is None ==> f == e
                    &&& e.session matches Some(h) ==> {
                        &&& f.session matches Some(g)
                        &&& g.port >= s.port_counter
                        &&& g == new_handle(g.port, e.config)
                        &&& stops.contains(
                            Stop { uuid: e.device.uuid, serial: e.device.serial, port: h.port },
                        )
                        &&& starts.contains(
                            Start { device: e.device, port: g.port, config: e.config },
                        )
                    }
                }
        }),
    decreases n,
{
    if n > 0 {
        let m = (n - 1) as nat;
        lemma_all_restarted(s, m);
        let (a, x, y) = s.all_restarted(m);
        let (t, stops, starts) = s.all_restarted(n);
        let e = s.devices[m as int];
        assert(a.devices[m as int] == e);
        if e.session is Some {
            let (b, p, q) = a.restarted(m);
            let stop = Stop {
                uuid: e.device.uuid,
                serial: e.device.serial,
                port: e.session->0.port,
            };
            let start = Start { device: e.device, port: a.port_counter, config: e.config };
            assert(p =~= seq![stop]);
            assert(q =~= seq![start]);
            assert(stops =~= x.push(stop));
            assert(starts =~= y.push(start));
            assert(stops[x.len() as int] == stop);
            assert(starts[y.len() as int] == start);
            assert forall|k: int| 0 <= k < m implies {
                let e = s.devices[k];
                let f = #[trigger] t.devices[k];
                e.session matches Some(h) ==> f.session is Some && stops.contains(
                    Stop { uuid: e.device.uuid, serial: e.device.serial, port: h.port },
                ) && starts.contains(
                    Start { device: e.device, port: f.session->0.port, config: e.config },
                )
            } by {
                let e = s.devices[k];
                assert(t.devices[k] == a.devices[k]);
                if e.session is Some {
                    let o = Stop {
                        uuid: e.device.uuid,
                        serial: e.device.serial,
                        port: e.session->0.port,
                    };
                    let i = choose|i: int| 0 <= i < x.len() && x[i] == o;
                    assert(stops[i] == o);
                    let u = Start {
                        device: e.device,
                        port: a.devices[k].session->0.port,
                        config: e.config,
                    };
                    let j = choose|j: int| 0 <= j < y.len() && y[j] == u;
                    assert(starts[j] == u);
                }
            }
        } else {
            assert(stops =~= x);
            assert(starts =~= y);
        }
    }
}

/// What names a device that is not known, and what is no business of the core, changes nothing.
pub proof fn law_unknown_device_changes_nothing(
    s: CoreState,
    adb: Seq<crate::types::DeviceView>,
    uuid: u128,
    flag: bool,
    volume: u16,
    text: Seq<char>,
)
    requires
        forall|i: int| 0 <= i < s.devices.len() ==> (#[trigger] s.devices[i]).device.uuid != uuid,
        forall|i: int| 0 <= i < s.devices.len() ==> !#[trigger] goes_by(s, i, text),
    ensures
        ({
            let none = (s, Seq::<Stop>::empty(), Seq::<Start>::empty());
            &&& s.commanded(CommandView::Retry(uuid), adb) == none
            &&& s.commanded(
                CommandView::UpdateConfig {
                    uuid,
                    clipboard_sync: flag,
                    notification_sync: flag,
                    audio_sync: flag,
                    volume,
                },
                adb,
            ) == none
            &&& s.commanded(CommandView::StartSession(text), adb) == none
            &&& s.commanded(CommandView::ListApps { uuid, force: flag }, adb) == none
            &&& s.commanded(CommandView::OpenApp { uuid, package_name: text }, adb) == none
        }),
{
    lemma_first(s.devices, Query::Uuid(uuid));
    lemma_first(s.devices, Query::Any(text));
    match first(s.devices, Query::Uuid(uuid)) {
        Some(i) => {
            assert(s.devices[i as int].device.uuid != uuid);
        },
        None => {},
    }
    match first(s.devices, Query::Any(text)) {
        Some(i) => {
            assert(!goes_by(s, i as int, text));
        },
        None => {},
    }
}

/// A session whose task has ended stays, as one that has failed, on the same port and with the
/// same settings, unless it was stopped. A device without a session gets none.
pub proof fn law_ended_session_has_failed(e: Entry)
    ensures
        e.buried().device == e.device,
        e.buried().config == e.config,
        e.session is None ==> e.buried().session is None,
        e.session matches Some(h) ==> e.buried().session == Some(
            Handle {
                session_state: if h.session_state == 4 {
                    4
                } else {
                    3
                },
                ..h
            },
        ),
{
}

/// The list of sessions that is told holds one item for each device that has a session, in
/// their order, and says of it who the device is, how its session stands and what was chosen.
pub proof fn law_every_session_is_told(s: Seq<Entry>)
    ensures
        summaries(s) == s.filter(|e: Entry| e.session is Some).map_values(
            |e: Entry|
                crate::ipc::types::Summary {
                    uuid: e.device.uuid,
                    id: e.device.id,
                    serial: e.device.serial,
                    name: e.device.name,
                    state: e.device.state.told(),
                    session_state: crate::session::handle::state_name(e.session->0.session_state),
                    clipboard_sync: e.config.clipboard_sync,
                    notification_sync: e.config.notification_sync,
                    audio_enabled: e.session->0.audio_enabled,
                    volume: e.config.volume,
                    audio_buffer_ms: e.session->0.audio_latency,
                },
        ),
    decreases s.len(),
{
    reveal(Seq::filter);
    let runs = |e: Entry| e.session is Some;
    if s.len() > 0 {
        law_every_session_is_told(s.drop_last());
        let before = s.drop_last().filter(runs);
        if s.last().session is Some {
            assert(s.filter(runs) =~= before.push(s.last()));
        } else {
            assert(s.filter(runs) =~= before);
        }
    }
    assert(summaries(s) =~= s.filter(runs).map_values(
        |e: Entry|
            crate::ipc::types::Summary {
                uuid: e.device.uuid,
                id: e.device.id,
                serial: e.device.serial,
                name: e.device.name,
                state: e.device.state.told(),
                session_state: crate::session::handle::state_name(e.session->0.session_state),
                clipboard_sync: e.config.clipboard_sync,
                notification_sync: e.config.notification_sync,
                audio_enabled: e.session->0.audio_enabled,
                volume: e.config.volume,
                audio_buffer_ms: e.session->0.audio_latency,
            },
    ));
}

/// When the daemon ends, every session is stopped: there is one order for each, in the order of
/// the devices.
pub proof fn law_every_session_is_stopped_at_the_end(s: CoreState, n: nat)
    requires
        n <= s.devices.len(),
    ensures
        all_stops(s, n) == s.devices.take(n as int).filter(
            |e: Entry| e.session is Some,
        ).map_values(
            |e: Entry|
                Stop {
                    uuid: e.device.uuid,
                    serial: e.device.serial,
                    port: e.session->0.port,
                },
        ),
    decreases n,
{
    reveal(Seq::filter);
    let runs = |e: Entry| e.session is Some;
    let all = s.devices.take(n as int);
    if n > 0 {
        law_every_session_is_stopped_at_the_end(s, (n - 1) as nat);
        let front = s.devices.take(n - 1);
        assert(all.drop_last() =~= front);
        let before = front.filter(runs);
        if all.last().session is Some {
            assert(all.filter(runs) =~= before.push(all.last()));
        } else {
            assert(all.filter(runs) =~= before);
        }
    }
    assert(all_stops(s, n) =~= all.filter(runs).map_values(
        |e: Entry|
            Stop { uuid: e.device.uuid, serial: e.device.serial, port: e.session->0.port },
    ));
}

/// An address that is taken from the queue is its first, and the others keep their order. One
/// that could not be connected to goes to the end, with one more failure, and is given up at
/// its fifth.
pub proof fn law_address_is_tried_five_times(s: CoreState, p: Pending)
    requires
        s.pending.len() > 0,
        p.attempts < 5,
    ensures
        s.taken() == (CoreState { pending: s.pending.skip(1), ..s }),
        p.attempts < 4 ==> s.failed(p) == (CoreState {
            pending: s.pending.push(Pending { addr: p.addr, attempts: (p.attempts + 1) as u8 }),
            ..s
        }),
        p.attempts == 4 ==> s.failed(p) == s,
{
}

/// In the beginning no device is known and no address is waited for, nothing was seen on any
/// clipboard, and the first session will use port 27183.
pub proof fn law_nothing_is_known_in_the_beginning(now: u64)
    ensures
        ({
            let s = CoreState::empty(now);
            &&& s.devices.len() == 0 && s.pending.len() == 0
            &&& s.last_seen is None && s.received is None
            &&& s.port_counter == 27183
            &&& s.complained_at == now
        }),
{
}

/// A device that is seen for the first time has no session and no name; its clipboard, its
/// notifications and its audio are passed on, at 80 percent of the volume and with Opus.
pub proof fn law_new_device_is_passed_on(
    uuid: u128,
    id: Seq<char>,
    serial: Seq<char>,
    state: crate::types::State,
)
    ensures
        ({
            let e = Entry::fresh(uuid, id, serial, state);
            &&& e.device.uuid == uuid && e.device.id == id && e.device.serial == serial
            &&& e.device.state == state && e.device.name.len() == 0
            &&& e.session is None
            &&& e.config.clipboard_sync && e.config.notification_sync && e.config.audio_enabled
            &&& e.config.volume == 80 && e.config.audio_codec == "opus"@
        }),
{
}

/// A phone that announces itself goes by what stands before the first dot of its name.
pub proof fn law_phone_goes_by_its_first_word(id: Seq<char>, rest: Seq<char>)
    requires
        !id.contains('.'),
    ensures
        crate::app::announced_id(id + seq!['.'] + rest) == id,
        crate::app::announced_id(id) == id,
{
    let s = id + seq!['.'] + rest;
    crate::text::lemma_find(s, '.');
    crate::text::lemma_find(id, '.');
    let n = crate::text::find(s, '.') as int;
    assert(s[id.len() as int] == '.');
    if n < id.len() {
        assert(s[n] == id[n]);
        assert(id.contains(id[n]));
    }
    let m = crate::text::find(id, '.') as int;
    if m < id.len() {
        assert(id.contains(id[m]));
    }
    assert(s.take(n) =~= id);
    assert(id.take(m) =~= id);
}

} // verus!
