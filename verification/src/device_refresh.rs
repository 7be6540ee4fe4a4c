//! How the list of devices is kept up to date: adb tells of every change, in blocks of a
//! length in four hexadecimal digits and so many bytes.
use crate::device_map::{alike, alike_lists, same_devices, DeviceMap};
use crate::protocol::devices::parse_devices;
use vstd::prelude::*;

verus! {

/// A block that is longer is taken for an error.
pub const MAX_PAYLOAD: usize = 65536;

/// The first wait before adb is started again: 100 milliseconds, in nanoseconds.
pub const FIRST_RETRY_DELAY: u64 = 100_000_000;

/// The longest wait before adb is started again: 5 seconds, in nanoseconds.
pub const MAX_RETRY_DELAY: u64 = 5_000_000_000;

/// The wait where adb could not be started at all: 2 seconds, in nanoseconds.
pub const SPAWN_RETRY_DELAY: u64 = 2_000_000_000;

/// The value of a hexadecimal digit.
pub open spec fn hex_value(b: u8) -> Option<nat> {
    if 48 <= b <= 57 {
        Some((b - 48) as nat)
    } else if 65 <= b <= 70 {
        Some((b - 55) as nat)
    } else if 97 <= b <= 102 {
        Some((b - 87) as nat)
    } else {
        None
    }
}

fn hex_digit_value(b: u8) -> (r: Option<usize>)
    ensures
        match r {
            Some(v) => hex_value(b) == Some(v as nat) && v < 16,
            None => hex_value(b) is None,
        },
{
    if 48 <= b && b <= 57 {
        Some((b - 48) as usize)
    } else if 65 <= b && b <= 70 {
        Some((b - 55) as usize)
    } else if 97 <= b && b <= 102 {
        Some((b - 87) as usize)
    } else {
        None
    }
}

/// The number that the hexadecimal digits spell.
pub open spec fn hex_number(s: Seq<u8>) -> Option<nat>
    decreases s.len(),
{
    if s.len() == 0 {
        Some(0)
    } else {
        match (hex_number(s.drop_last()), hex_value(s.last())) {
            (Some(n), Some(d)) => Some(n * 16 + d),
            _ => None,
        }
    }
}

/// The length that a header gives. A plus sign may stand before the digits.
pub open spec fn header_len(h: Seq<u8>) -> Option<nat> {
    if h.len() > 0 && h[0] == 43 {
        if h.len() == 1 {
            None
        } else {
            hex_number(h.skip(1))
        }
    } else if h.len() == 0 {
        None
    } else {
        hex_number(h)
    }
}

proof fn lemma_hex_number_fails(s: Seq<u8>, k: int)
    requires
        0 <= k <= s.len(),
        hex_number(s.take(k)) is None,
    ensures
        hex_number(s) is None,
    decreases s.len() - k,
{
    if k < s.len() {
        assert(s.take(k + 1).drop_last() =~= s.take(k));
        lemma_hex_number_fails(s, k + 1);
    } else {
        assert(s.take(k) =~= s);
    }
}

/// The length that a header of four bytes gives.
pub fn parse_header(h: &[u8; 4]) -> (r: Option<usize>)
    ensures
        match r {
            Some(n) => header_len(h@) == Some(n as nat) && n < 65536,
            None => header_len(h@) is None,
        },
{
    let from: usize = if h[0] == 43 {
        1
    } else {
        0
    };
    let ghost d = h@.skip(from as int);
    let mut n: usize = 0;
    let mut i: usize = from;
    proof {
        assert(d.take(0) =~= Seq::empty());
        if from == 0 {
            assert(d =~= h@);
        }
    }
    while i < 4
        invariant
            from <= i <= 4,
            from <= 1,
            from == 1 <==> h@[0] == 43,
            h@.len() == 4,
            d == h@.skip(from as int),
            from == 0 ==> d == h@,
            hex_number(d.take(i - from)) == Some(n as nat),
            i == 0 ==> n < 1,
            i == 1 ==> n < 16,
            i == 2 ==> n < 256,
            i == 3 ==> n < 4096,
            i == 4 ==> n < 65536,
        decreases 4 - i,
    {
        proof {
            let t = d.take(i - from + 1);
            assert(t.drop_last() =~= d.take(i - from));
            assert(t.last() == h@[i as int]);
        }
        match hex_digit_value(h[i]) {
            Some(v) => {
                n = n * 16 + v;
            },
            None => {
                proof {
                    lemma_hex_number_fails(d, i - from + 1);
                }
                return None;
            },
        }
        i += 1;
    }
    assert(d.take(i - from) =~= d);
    Some(n)
}

/// What is done after a header.
#[derive(Debug, Clone, Copy, PartialEq, Eq, Structural)]
pub enum TrackStep {
    /// The block is empty; the next header follows.
    Skip,
    /// So many bytes follow.
    Read(usize),
    /// The stream makes no sense; adb is started again.
    Restart,
}

/// What is done after the header `h`.
pub open spec fn after_header(h: Seq<u8>) -> TrackStep {
    match header_len(h) {
        Some(n) => if n == 0 {
            TrackStep::Skip
        } else if n > MAX_PAYLOAD {
            TrackStep::Restart
        } else {
            TrackStep::Read(n as usize)
        },
        None => TrackStep::Restart,
    }
}

pub fn on_header(h: &[u8; 4]) -> (r: TrackStep)
    ensures
        r == after_header(h@),
{
    match parse_header(h) {
        Some(n) => {
            if n == 0 {
                TrackStep::Skip
            } else if n > MAX_PAYLOAD {
                TrackStep::Restart
            } else {
                TrackStep::Read(n)
            }
        },
        None => TrackStep::Restart,
    }
}

/// The list of devices that a block gives.
pub open spec fn listed_in(
    ds: Seq<crate::types::DeviceView>,
) -> Seq<crate::types::DeviceView>
    decreases ds.len(),
{
    if ds.len() == 0 {
        Seq::empty()
    } else {
        crate::device_map::with_device(listed_in(ds.drop_last()), ds.last())
    }
}

/// Follows what adb tells of the devices.
pub struct DeviceTracker {
    last: DeviceMap,
    retry_delay: u64,
}

/// What is known of the devices, and how long the next wait is.
#[verifier::ext_equal]
pub struct Tracking {
    pub last: Seq<crate::types::DeviceView>,
    pub retry_delay: u64,
}

impl View for DeviceTracker {
    type V = Tracking;

    closed spec fn view(&self) -> Tracking {
        Tracking { last: self.last@, retry_delay: self.retry_delay }
    }
}

impl DeviceTracker {
    /// No two devices share an address, and the wait is no longer than it may be.
    pub open spec fn wf(&self) -> bool {
        crate::device_map::distinct(self@.last) && self@.retry_delay <= MAX_RETRY_DELAY
    }

    pub fn new() -> (r: Self)
        ensures
            r.wf(),
            r@ == (Tracking { last: Seq::empty(), retry_delay: FIRST_RETRY_DELAY }),
            r@.retry_delay == delay_after(0),
    {
        DeviceTracker { last: DeviceMap::new(), retry_delay: FIRST_RETRY_DELAY }
    }

    /// A block has come. The list is returned where it is not the one that was returned
    /// last; the numbers that were drawn for the devices make no difference. A block that
    /// is no text changes nothing.
    pub fn on_payload(&mut self, payload: &[u8]) -> (r: Option<DeviceMap>)
        requires
            old(self).wf(),
        ensures
            final(self).wf(),
            final(self)@.retry_delay == old(self)@.retry_delay,
            match r {
                Some(m) => {
                    &&& vstd::utf8::valid_utf8(payload@)
                    &&& !same_devices(told(payload@), old(self)@.last)
                    &&& m.wf()
                    &&& alike_lists(m@, told(payload@))
                    &&& numbers_drawn(m@)
                    &&& final(self)@.last == m@
                },
                None => {
                    &&& final(self)@ == old(self)@
                    &&& vstd::utf8::valid_utf8(payload@) ==> same_devices(
                        told(payload@),
                        old(self)@.last,
                    )
                },
            },
    {
        match parse_devices(payload) {
            Ok(devices) => {
                let ghost ds = crate::types::device_views(devices@);
                let m = collect(devices);
                proof {
                    lemma_listed_numbers(ds);
                    lemma_listed_alike(ds, unnumbered(payload@));
                    lemma_alike_is_same(m@, told(payload@), self.last@);
                }
                if m.same_as(&self.last) {
                    return None;
                }
                self.last = m.duplicate();
                Some(m)
            },
            Err(_) => None,
        }
    }

    /// adb has ended: how long to wait before it is started again. Every wait is twice the
    /// one before, up to a limit.
    pub fn on_disconnect(&mut self) -> (wait: u64)
        requires
            old(self).wf(),
        ensures
            final(self).wf(),
            wait == old(self)@.retry_delay,
            final(self)@ == (Tracking {
                retry_delay: if 2 * old(self)@.retry_delay > MAX_RETRY_DELAY {
                    MAX_RETRY_DELAY
                } else {
                    (2 * old(self)@.retry_delay) as u64
                },
                ..old(self)@
            }),
            forall|n: nat|
                old(self)@.retry_delay == #[trigger] delay_after(n) ==> final(self)@.retry_delay
                    == delay_after(n + 1),
    {
        let wait: u64 = self.retry_delay;
        let doubled: u64 = wait * 2;
        self.retry_delay = if doubled > MAX_RETRY_DELAY {
            MAX_RETRY_DELAY
        } else {
            doubled
        };
        wait
    }
}

/// `ds` are the devices that a block lists, under numbers that were drawn for them.
pub open spec fn block_of(payload: Seq<u8>, ds: Seq<crate::types::DeviceView>) -> bool {
    alike_lists(ds, unnumbered(payload)) && numbers_drawn(ds)
}

/// Every device has a number that was drawn for it.
pub open spec fn numbers_drawn(ds: Seq<crate::types::DeviceView>) -> bool {
    forall|i: int| 0 <= i < ds.len() ==> crate::types::is_random_uuid((#[trigger] ds[i]).uuid)
}

/// The devices on the lines of a block, all of them under the number 0.
pub open spec fn unnumbered(payload: Seq<u8>) -> Seq<crate::types::DeviceView> {
    let found = crate::protocol::devices::on_lines(
        crate::text::lines(vstd::utf8::decode_utf8(payload)),
    );
    Seq::new(
        found.len(),
        |i: int| crate::protocol::devices::listed_device(0, found[i].0, found[i].1),
    )
}

/// The list that a block gives, each device under its address and the number 0.
pub open spec fn told(payload: Seq<u8>) -> Seq<crate::types::DeviceView> {
    listed_in(unnumbered(payload))
}

proof fn lemma_listed_numbers(ds: Seq<crate::types::DeviceView>)
    requires
        numbers_drawn(ds),
    ensures
        numbers_drawn(listed_in(ds)),
    decreases ds.len(),
{
    if ds.len() > 0 {
        let x = ds.drop_last();
        assert(numbers_drawn(x)) by {
            assert forall|i: int| 0 <= i < x.len() implies crate::types::is_random_uuid(
                (#[trigger] x[i]).uuid,
            ) by {
                assert(x[i] == ds[i]);
            }
        }
        lemma_listed_numbers(x);
        crate::device_map::lemma_place_of(listed_in(x), ds.last().serial);
        let p = listed_in(ds);
        assert forall|i: int| 0 <= i < p.len() implies crate::types::is_random_uuid(
            (#[trigger] p[i]).uuid,
        ) by {
            assert(crate::types::is_random_uuid(ds[ds.len() - 1].uuid));
            if i < listed_in(x).len() {
                assert(crate::types::is_random_uuid(listed_in(x)[i].uuid));
            }
        }
    }
}

proof fn lemma_listed_alike(
    a: Seq<crate::types::DeviceView>,
    b: Seq<crate::types::DeviceView>,
)
    requires
        alike_lists(a, b),
    ensures
        alike_lists(listed_in(a), listed_in(b)),
    decreases a.len(),
{
    if a.len() > 0 {
        let x = a.drop_last();
        let y = b.drop_last();
        assert forall|i: int| 0 <= i < x.len() implies alike(#[trigger] x[i], y[i]) by {
            assert(alike(a[i], b[i]));
        }
        assert(alike(a[a.len() - 1], b[b.len() - 1]));
        lemma_listed_alike(x, y);
        crate::device_map::lemma_alike_places(listed_in(x), listed_in(y), a.last().serial);
        crate::device_map::lemma_place_of(listed_in(x), a.last().serial);
        let p = listed_in(a);
        let q = listed_in(b);
        assert forall|i: int| 0 <= i < p.len() implies alike(#[trigger] p[i], q[i]) by {
            if i < listed_in(x).len() {
                assert(alike(listed_in(x)[i], listed_in(y)[i]));
            }
        }
    }
}

proof fn lemma_alike_is_same(
    a: Seq<crate::types::DeviceView>,
    b: Seq<crate::types::DeviceView>,
    last: Seq<crate::types::DeviceView>,
)
    requires
        alike_lists(a, b),
    ensures
        same_devices(a, last) == same_devices(b, last),
{
    if same_devices(a, last) {
        assert forall|i: int| 0 <= i < b.len() implies (crate::device_map::place_of(
            last,
            (#[trigger] b[i]).serial,
        ) matches Some(k) && alike(last[k as int], b[i])) by {
            assert(alike(a[i], b[i]));
        }
    }
    if same_devices(b, last) {
        assert forall|i: int| 0 <= i < a.len() implies (crate::device_map::place_of(
            last,
            (#[trigger] a[i]).serial,
        ) matches Some(k) && alike(last[k as int], a[i])) by {
            assert(alike(a[i], b[i]));
        }
    }
}

/// A list that was passed on is not passed on again: any block that tells of the same
/// devices, in whatever order, counts as the same list as the one that was kept.
pub proof fn law_same_list_is_told_once(
    payload: Seq<u8>,
    again: Seq<u8>,
    kept: Seq<crate::types::DeviceView>,
)
    requires
        alike_lists(kept, told(payload)),
        same_devices(told(again), told(payload)),
    ensures
        same_devices(told(again), kept),
        crate::device_map::distinct(kept) ==> same_devices(told(payload), kept),
{
    let t = told(again);
    assert forall|i: int| 0 <= i < t.len() implies (crate::device_map::place_of(
        kept,
        (#[trigger] t[i]).serial,
    ) matches Some(k) && alike(kept[k as int], t[i])) by {
        crate::device_map::lemma_alike_places(kept, told(payload), t[i].serial);
        crate::device_map::lemma_place_of(kept, t[i].serial);
        let k = crate::device_map::place_of(told(payload), t[i].serial)->0;
        assert(alike(kept[k as int], told(payload)[k as int]));
    }
    if crate::device_map::distinct(kept) {
        let p = told(payload);
        assert forall|i: int| 0 <= i < p.len() implies (crate::device_map::place_of(
            kept,
            (#[trigger] p[i]).serial,
        ) matches Some(k) && alike(kept[k as int], p[i])) by {
            crate::device_map::lemma_place_of(kept, p[i].serial);
            assert(alike(kept[i], p[i]));
            assert(kept[i].serial == p[i].serial);
        }
    }
}

/// The devices, each under its address; of two with one address the later one stays.
fn collect(devices: Vec<crate::types::Device>) -> (r: DeviceMap)
    ensures
        r.wf(),
        r@ == listed_in(crate::types::device_views(devices@)),
{
    let ghost all = crate::types::device_views(devices@);
    let mut m = DeviceMap::new();
    let mut i: usize = 0;
    assert(all.take(0) =~= Seq::empty());
    while i < devices.len()
        invariant
            i <= devices@.len(),
            all == crate::types::device_views(devices@),
            m.wf(),
            m@ == listed_in(all.take(i as int)),
        decreases devices@.len() - i,
    {
        proof {
            let t = all.take(i + 1);
            assert(t.drop_last() =~= all.take(i as int));
            assert(t.last() == devices@[i as int]@);
        }
        m.insert(devices[i].duplicate());
        i += 1;
    }
    assert(all.take(i as int) =~= all);
    m
}

/// The wait after `n` restarts.
pub open spec fn delay_after(n: nat) -> nat
    decreases n,
{
    if n == 0 {
        FIRST_RETRY_DELAY as nat
    } else {
        let d = 2 * delay_after((n - 1) as nat);
        if d > MAX_RETRY_DELAY {
            MAX_RETRY_DELAY as nat
        } else {
            d
        }
    }
}

/// Waits never get shorter and never longer than the limit, which is reached after six
/// restarts.
pub proof fn law_waits_grow_to_a_limit(n: nat)
    ensures
        delay_after(n) <= delay_after(n + 1) <= MAX_RETRY_DELAY,
        n >= 6 ==> delay_after(n) == MAX_RETRY_DELAY,
    decreases n,
{
    if n > 0 {
        law_waits_grow_to_a_limit((n - 1) as nat);
    }
    reveal_with_fuel(delay_after, 8);
}

/// The first wait is a tenth of a second, every wait is twice the one before, and from the seventh
/// on it is five seconds.
pub proof fn law_waits_double(n: nat)
    ensures
        delay_after(0) == 100_000_000,
        n < 5 ==> delay_after(n + 1) == 2 * delay_after(n),
        n >= 6 ==> delay_after(n) == 5_000_000_000,
{
    law_waits_grow_to_a_limit(n);
    reveal_with_fuel(delay_after, 8);
}

/// A header of four hexadecimal digits, in whatever case, announces as many bytes as the digits
/// spell; after one that spells 0 the next header follows.
pub proof fn law_header_announces_its_block(h: Seq<u8>, d: Seq<nat>)
    requires
        h.len() == 4,
        d.len() == 4,
        forall|i: int|
            0 <= i < 4 ==> (#[trigger] d[i]) < 16 && if d[i] < 10 {
                h[i] == 48 + d[i]
            } else {
                h[i] == 55 + d[i] || h[i] == 87 + d[i]
            },
    ensures
        ({
            let n = 4096 * d[0] + 256 * d[1] + 16 * d[2] + d[3];
            after_header(h) == if n == 0 {
                TrackStep::Skip
            } else {
                TrackStep::Read(n as usize)
            }
        }),
{
    reveal_with_fuel(hex_number, 5);
    assert(d[0] < 16 && d[1] < 16 && d[2] < 16 && d[3] < 16);
    let a = h.drop_last();
    let b = a.drop_last();
    let c = b.drop_last();
    assert(a.last() == h[2] && b.last() == h[1] && c.last() == h[0]);
    assert(c.drop_last().len() == 0);
    assert(hex_number(c) == Some(d[0]));
    assert(hex_number(b) == Some(d[0] * 16 + d[1]));
    assert(hex_number(a) == Some((d[0] * 16 + d[1]) * 16 + d[2]));
}

/// A header with anything but hexadecimal digits behind its first byte makes no sense, and adb is
/// started again.
pub proof fn law_other_headers_make_no_sense(h: Seq<u8>, i: int)
    requires
        h.len() == 4,
        0 < i < 4 || i == 0 && h[0] != 43,
        !(48 <= h[i] <= 57 || 65 <= h[i] <= 70 || 97 <= h[i] <= 102),
    ensures
        after_header(h) == TrackStep::Restart,
{
    let s = if h[0] == 43 {
        h.skip(1)
    } else {
        h
    };
    let k = if h[0] == 43 {
        i
    } else {
        i + 1
    };
    assert(s.take(k).last() == h[i]);
    assert(hex_number(s.take(k)) is None);
    lemma_hex_number_fails(s, k);
}

/// The list that a block gives holds every address once, and for each address the device that the
/// block tells of last.
pub proof fn law_last_line_of_an_address_counts(ds: Seq<crate::types::DeviceView>)
    ensures
        crate::device_map::distinct(listed_in(ds)),
        forall|k: int|
            0 <= k < listed_in(ds).len() ==> exists|i: int|
                0 <= i < ds.len() && #[trigger] listed_in(ds)[k] == #[trigger] ds[i],
        forall|i: int|
            0 <= i < ds.len() && (forall|j: int| i < j < ds.len() ==> (#[trigger] ds[j]).serial
                != ds[i].serial) ==> listed_in(ds).contains(#[trigger] ds[i]),
    decreases ds.len(),
{
    if ds.len() > 0 {
        let x = ds.drop_last();
        let d = ds.last();
        let a = listed_in(x);
        let b = listed_in(ds);
        law_last_line_of_an_address_counts(x);
        crate::device_map::lemma_place_of(a, d.serial);
        let p = crate::device_map::place_of(a, d.serial);
        assert forall|i: int, j: int| 0 <= i < j < b.len() implies (#[trigger] b[i]).serial != (
        #[trigger] b[j]).serial by {
            if j < a.len() {
                assert(a[i].serial != a[j].serial);
            } else {
                assert(a[i].serial != d.serial);
            }
        }
        let at: int = if p is Some {
            p->0 as int
        } else {
            a.len() as int
        };
        assert(b[at] == d);
        assert forall|k: int| 0 <= k < b.len() implies exists|i: int|
            0 <= i < ds.len() && #[trigger] b[k] == #[trigger] ds[i] by {
            if k == at {
                assert(b[k] == ds[ds.len() - 1]);
            } else {
                let i = choose|i: int| 0 <= i < x.len() && a[k] == #[trigger] x[i];
                assert(ds[i] == x[i]);
            }
        }
        assert forall|i: int|
            0 <= i < ds.len() && (forall|j: int| i < j < ds.len() ==> (#[trigger] ds[j]).serial
                != ds[i].serial) implies b.contains(#[trigger] ds[i]) by {
            if i < x.len() {
                assert(x[i] == ds[i]);
                assert forall|j: int| i < j < x.len() implies (#[trigger] x[j]).serial
                    != x[i].serial by {
                    assert(x[j] == ds[j]);
                }
                assert(ds[ds.len() - 1].serial != ds[i].serial);
                let k = choose|k: int| 0 <= k < a.len() && a[k] == x[i];
                assert(k != at);
                assert(b[k] == ds[i]);
            } else {
                assert(b[at] == ds[i]);
            }
        }
    }
}

} // verus!
