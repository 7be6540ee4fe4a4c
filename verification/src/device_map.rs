//! Devices by the address that adb lists them under.
use crate::text::same;
use crate::types::Device;
use vstd::prelude::*;

verus! {

/// The place of the device that is listed under `serial`.
pub open spec fn place_of(s: Seq<crate::types::DeviceView>, serial: Seq<char>) -> Option<nat>
    decreases s.len(),
{
    if s.len() == 0 {
        None
    } else if s.first().serial == serial {
        Some(0)
    } else {
        match place_of(s.skip(1), serial) {
            Some(i) => Some(i + 1),
            None => None,
        }
    }
}

pub proof fn lemma_place_of(s: Seq<crate::types::DeviceView>, serial: Seq<char>)
    ensures
        match place_of(s, serial) {
            Some(i) => i < s.len() && s[i as int].serial == serial && forall|j: int|
                0 <= j < i ==> (#[trigger] s[j]).serial != serial,
            None => forall|j: int| 0 <= j < s.len() ==> (#[trigger] s[j]).serial != serial,
        },
    decreases s.len(),
{
    if s.len() > 0 && s.first().serial != serial {
        lemma_place_of(s.skip(1), serial);
        match place_of(s.skip(1), serial) {
            Some(i) => {
                assert forall|j: int| 0 <= j < i + 1 implies (#[trigger] s[j]).serial
                    != serial by {
                    if j > 0 {
                        assert(s.skip(1)[j - 1] == s[j]);
                    }
                }
            },
            None => {
                assert forall|j: int| 0 <= j < s.len() implies (#[trigger] s[j]).serial
                    != serial by {
                    if j > 0 {
                        assert(s.skip(1)[j - 1] == s[j]);
                    }
                }
            },
        }
    }
}

/// The list with `d` in it, in the place of the device that was listed under its address,
/// and else at the end.
pub open spec fn with_device(
    s: Seq<crate::types::DeviceView>,
    d: crate::types::DeviceView,
) -> Seq<crate::types::DeviceView> {
    match place_of(s, d.serial) {
        Some(i) => s.update(i as int, d),
        None => s.push(d),
    }
}

/// The devices that adb knows, each under its address.
#[derive(Debug)]
pub struct DeviceMap {
    items: Vec<Device>,
}

impl View for DeviceMap {
    type V = Seq<crate::types::DeviceView>;

    closed spec fn view(&self) -> Seq<crate::types::DeviceView> {
        crate::types::device_views(self.items@)
    }
}

/// No two devices are listed under one address.
pub open spec fn distinct(s: Seq<crate::types::DeviceView>) -> bool {
    forall|i: int, j: int|
        0 <= i < j < s.len() ==> (#[trigger] s[i]).serial != (#[trigger] s[j]).serial
}

impl DeviceMap {
    pub open spec fn wf(&self) -> bool {
        distinct(self@)
    }

    pub fn new() -> (r: Self)
        ensures
            r.wf(),
            r@ == Seq::<crate::types::DeviceView>::empty(),
    {
        let r = DeviceMap { items: Vec::new() };
        assert(r@ =~= Seq::empty());
        r
    }

    pub fn len(&self) -> (r: usize)
        ensures
            r == self@.len(),
    {
        self.items.len()
    }

    /// The device at place `i`.
    pub fn at(&self, i: usize) -> (r: &Device)
        requires
            i < self@.len(),
        ensures
            r@ == self@[i as int],
    {
        &self.items[i]
    }

    fn find(&self, serial: &str) -> (r: Option<usize>)
        ensures
            match r {
                Some(i) => place_of(self@, serial@) == Some(i as nat) && i < self@.len(),
                None => place_of(self@, serial@) is None,
            },
    {
        let mut i: usize = 0;
        assert(self@.skip(0) =~= self@);
        while i < self.items.len()
            invariant
                i <= self.items@.len(),
                place_of(self@, serial@) == match place_of(self@.skip(i as int), serial@) {
                    Some(k) => Some(k + i as nat),
                    None => None,
                },
            decreases self.items@.len() - i,
        {
            assert(self@.skip(i as int).first() == self.items@[i as int]@);
            if same(self.items[i].serial.as_str(), serial) {
                return Some(i);
            }
            assert(self@.skip(i as int).skip(1) =~= self@.skip(i + 1));
            i += 1;
        }
        None
    }

    /// The device that is listed under `serial`.
    pub fn get(&self, serial: &str) -> (r: Option<&Device>)
        ensures
            match r {
                Some(d) => place_of(self@, serial@) matches Some(i) && d@ == self@[i as int],
                None => place_of(self@, serial@) is None,
            },
    {
        match self.find(serial) {
            Some(i) => Some(&self.items[i]),
            None => None,
        }
    }

    pub fn contains_key(&self, serial: &str) -> (r: bool)
        ensures
            r == (place_of(self@, serial@) is Some),
    {
        self.find(serial).is_some()
    }

    /// Lists `d` under its address; a device that was listed there is replaced.
    pub fn insert(&mut self, d: Device)
        requires
            old(self).wf(),
        ensures
            final(self).wf(),
            final(self)@ == with_device(old(self)@, d@),
    {
        let ghost before = self@;
        proof {
            lemma_place_of(before, d@.serial);
        }
        match self.find(d.serial.as_str()) {
            Some(i) => {
                let ghost dv = d@;
                self.items.set(i, d);
                assert(self@ =~= before.update(i as int, dv));
                assert forall|a: int, b: int| 0 <= a < b < self@.len() implies (#[trigger] self@[a]).serial
                    != (#[trigger] self@[b]).serial by {
                    assert(before[a].serial != before[b].serial);
                }
            },
            None => {
                let ghost dv = d@;
                self.items.push(d);
                assert(self@ =~= before.push(dv));
                assert forall|a: int, b: int| 0 <= a < b < self@.len() implies (#[trigger] self@[a]).serial
                    != (#[trigger] self@[b]).serial by {
                    if b < before.len() {
                        assert(before[a].serial != before[b].serial);
                    } else {
                        assert(before[a].serial != dv.serial);
                    }
                }
            },
        }
    }

    pub fn duplicate(&self) -> (r: Self)
        ensures
            r@ == self@,
    {
        let mut items: Vec<Device> = Vec::new();
        let mut i: usize = 0;
        while i < self.items.len()
            invariant
                i <= self.items@.len(),
                crate::types::device_views(items@) == self@.take(i as int),
            decreases self.items@.len() - i,
        {
            let ghost before = items@;
            items.push(self.items[i].duplicate());
            i += 1;
            assert(crate::types::device_views(items@) =~= crate::types::device_views(before).push(
                self@[i - 1],
            ));
            assert(crate::types::device_views(items@) =~= self@.take(i as int));
        }
        assert(self@.take(i as int) =~= self@);
        DeviceMap { items }
    }

    /// The devices that are connected.
    pub fn online(&self) -> (r: Self)
        requires
            self.wf(),
        ensures
            r.wf(),
            r@ == self@.filter(
                |d: crate::types::DeviceView| d.state == crate::types::State::Device,
            ),
    {
        let mut items: Vec<Device> = Vec::new();
        let ghost on = |d: crate::types::DeviceView| d.state == crate::types::State::Device;
        let mut i: usize = 0;
        proof {
            reveal(Seq::filter);
            assert(self@.take(0) =~= Seq::empty());
            assert(crate::types::device_views(items@) =~= Seq::empty());
        }
        while i < self.items.len()
            invariant
                i <= self.items@.len(),
                self.wf(),
                on == (|d: crate::types::DeviceView| d.state == crate::types::State::Device),
                crate::types::device_views(items@) == self@.take(i as int).filter(on),
                forall|j: int|
                    0 <= j < items@.len() ==> exists|k: int|
                        0 <= k < i && (#[trigger] items@[j])@ == self@[k],
                distinct(crate::types::device_views(items@)),
            decreases self.items@.len() - i,
        {
            let ghost before = items@;
            let ghost views = crate::types::device_views(items@);
            proof {
                let t = self@.take(i + 1);
                assert(t.drop_last() =~= self@.take(i as int));
                assert(t.last() == self.items@[i as int]@);
                reveal(Seq::filter);
            }
            if self.items[i].state.is_device() {
                items.push(self.items[i].duplicate());
                proof {
                    let now = crate::types::device_views(items@);
                    assert(now =~= views.push(self@[i as int]));
                    assert forall|a: int, b: int| 0 <= a < b < now.len() implies (#[trigger] now[a]).serial
                        != (#[trigger] now[b]).serial by {
                        if b < views.len() {
                            assert(views[a].serial != views[b].serial);
                        } else {
                            assert(before[a]@ == now[a]);
                            let k = choose|k: int| 0 <= k < i && before[a]@ == self@[k];
                            assert(self@[k].serial != self@[i as int].serial);
                        }
                    }
                    assert forall|j: int| 0 <= j < items@.len() implies exists|k: int|
                        0 <= k < i + 1 && (#[trigger] items@[j])@ == self@[k] by {
                        if j < before.len() {
                            assert(items@[j] == before[j]);
                            let k = choose|k: int| 0 <= k < i && before[j]@ == self@[k];
                            assert(items@[j]@ == self@[k]);
                        } else {
                            assert(items@[j]@ == self@[i as int]);
                        }
                    }
                }
            }
            i += 1;
        }
        assert(self@.take(i as int) =~= self@);
        DeviceMap { items }
    }

    /// The two list the same devices, in whatever order and under whatever numbers.
    pub fn same_as(&self, other: &Self) -> (r: bool)
        requires
            self.wf(),
            other.wf(),
        ensures
            r == same_devices(self@, other@),
    {
        if self.items.len() != other.items.len() {
            return false;
        }
        let mut i: usize = 0;
        while i < self.items.len()
            invariant
                i <= self.items@.len(),
                self@.len() == other@.len(),
                forall|j: int|
                    0 <= j < i ==> (place_of(other@, (#[trigger] self@[j]).serial) matches Some(k)
                        && alike(other@[k as int], self@[j])),
            decreases self.items@.len() - i,
        {
            assert(self@[i as int] == self.items@[i as int]@);
            match other.find(self.items[i].serial.as_str()) {
                Some(k) => {
                    assert(other@[k as int] == other.items@[k as int]@);
                    if !same_device(&other.items[k], &self.items[i]) {
                        return false;
                    }
                },
                None => {
                    return false;
                },
            }
            i += 1;
        }
        true
    }
}

/// The two devices agree in everything but the number that was drawn for them.
pub open spec fn alike(a: crate::types::DeviceView, b: crate::types::DeviceView) -> bool {
    a == (crate::types::DeviceView { uuid: a.uuid, ..b })
}

/// The two lists hold devices that agree, in the same order.
pub open spec fn alike_lists(
    a: Seq<crate::types::DeviceView>,
    b: Seq<crate::types::DeviceView>,
) -> bool {
    a.len() == b.len() && forall|i: int| 0 <= i < a.len() ==> alike(#[trigger] a[i], b[i])
}

/// Each device of one list is in the other, under whatever number, and they are as many.
pub open spec fn same_devices(
    a: Seq<crate::types::DeviceView>,
    b: Seq<crate::types::DeviceView>,
) -> bool {
    a.len() == b.len() && forall|i: int|
        0 <= i < a.len() ==> (place_of(b, (#[trigger] a[i]).serial) matches Some(k) && alike(
            b[k as int],
            a[i],
        ))
}

pub proof fn lemma_alike_places(
    a: Seq<crate::types::DeviceView>,
    b: Seq<crate::types::DeviceView>,
    serial: Seq<char>,
)
    requires
        alike_lists(a, b),
    ensures
        place_of(a, serial) == place_of(b, serial),
    decreases a.len(),
{
    if a.len() > 0 {
        assert(alike(a[0], b[0]));
        assert forall|i: int| 0 <= i < a.skip(1).len() implies alike(
            #[trigger] a.skip(1)[i],
            b.skip(1)[i],
        ) by {
            assert(alike(a[i + 1], b[i + 1]));
        }
        lemma_alike_places(a.skip(1), b.skip(1), serial);
    }
}

fn same_option(a: &Option<String>, b: &Option<String>) -> (r: bool)
    ensures
        r == (crate::text::string_view(*a) == crate::text::string_view(*b)),
{
    match (a, b) {
        (Some(x), Some(y)) => same(x.as_str(), y.as_str()),
        (None, None) => true,
        _ => false,
    }
}

/// The two devices agree in everything but their numbers.
pub fn same_device(a: &Device, b: &Device) -> (r: bool)
    ensures
        r == alike(a@, b@),
{
    same(a.id.as_str(), b.id.as_str()) && same(
        a.serial.as_str(),
        b.serial.as_str(),
    ) && a.state.same_as(&b.state) && same(a.name.as_str(), b.name.as_str()) && same_option(
        &a.identity.usb,
        &b.identity.usb,
    ) && same_option(&a.identity.mdns, &b.identity.mdns) && same_option(
        &a.identity.ip,
        &b.identity.ip,
    )
}

/// What was listed is found under its address, and nothing else has changed.
pub proof fn law_listed_device_is_found(
    s: Seq<crate::types::DeviceView>,
    d: crate::types::DeviceView,
    serial: Seq<char>,
)
    requires
        distinct(s),
    ensures
        ({
            let t = with_device(s, d);
            &&& place_of(t, d.serial) matches Some(i) && t[i as int] == d
            &&& serial != d.serial ==> place_of(t, serial) == place_of(s, serial)
            &&& serial != d.serial ==> (place_of(s, serial) matches Some(k) ==> t[k as int]
                == s[k as int])
        }),
{
    let t = with_device(s, d);
    lemma_place_of(s, d.serial);
    lemma_place_of(t, d.serial);
    lemma_place_of(s, serial);
    lemma_place_of(t, serial);
    match place_of(s, d.serial) {
        Some(i) => {
            assert(t[i as int] == d);
            let k = place_of(t, d.serial).unwrap();
            if k != i {
                assert(t[k as int] == s[k as int]);
            }
        },
        None => {
            assert(t[s.len() as int] == d);
            let k = place_of(t, d.serial).unwrap();
            if k != s.len() {
                assert(t[k as int] == s[k as int]);
            }
        },
    }
    if serial != d.serial {
        match (place_of(s, serial), place_of(t, serial)) {
            (Some(a), Some(b)) => {
                assert(s[a as int] == t[a as int]);
                assert(s[b as int] == t[b as int]);
                if a < b {
                    assert(t[a as int].serial != serial);
                }
                if b < a {
                    assert(s[b as int].serial != serial);
                }
            },
            (Some(a), None) => {
                assert(t[a as int] == s[a as int]);
            },
            (None, Some(b)) => {
                assert(t[b as int] == s[b as int]);
            },
            (None, None) => {},
        }
    }
}

/// Two lists count as the same where they are as long and each device of the one is in the other
/// with the same address, name, state and identity, whatever its number and place.
pub proof fn law_same_lists_hold_the_same(
    a: Seq<crate::types::DeviceView>,
    b: Seq<crate::types::DeviceView>,
)
    requires
        distinct(b),
    ensures
        same_devices(a, b) <==> a.len() == b.len() && forall|i: int|
            0 <= i < a.len() ==> exists|k: int|
                #![trigger b[k]]
                0 <= k < b.len() && b[k].serial == (#[trigger] a[i]).serial && b[k].id == a[i].id
                    && b[k].name == a[i].name && b[k].state == a[i].state && b[k].identity
                    == a[i].identity,
{
    if same_devices(a, b) {
        assert forall|i: int| 0 <= i < a.len() implies exists|k: int|
            #![trigger b[k]]
            0 <= k < b.len() && b[k].serial == (#[trigger] a[i]).serial && b[k].id == a[i].id
                && b[k].name == a[i].name && b[k].state == a[i].state && b[k].identity
                == a[i].identity by {
            lemma_place_of(b, a[i].serial);
            let k = place_of(b, a[i].serial)->0 as int;
            assert(alike(b[k], a[i]));
        }
    }
    if a.len() == b.len() && forall|i: int|
        0 <= i < a.len() ==> exists|k: int|
            #![trigger b[k]]
            0 <= k < b.len() && b[k].serial == (#[trigger] a[i]).serial && b[k].id == a[i].id
                && b[k].name == a[i].name && b[k].state == a[i].state && b[k].identity
                == a[i].identity {
        assert forall|i: int| 0 <= i < a.len() implies (place_of(b, (#[trigger] a[i]).serial) matches Some(k)
            && alike(b[k as int], a[i])) by {
            lemma_place_of(b, a[i].serial);
            let k = choose|k: int|
                #![trigger b[k]]
                0 <= k < b.len() && b[k].serial == a[i].serial && b[k].id == a[i].id && b[k].name
                    == a[i].name && b[k].state == a[i].state && b[k].identity == a[i].identity;
            let p = place_of(b, a[i].serial)->0 as int;
            assert(b[p].serial == b[k].serial);
            assert(p == k);
        }
    }
}

} // verus!
