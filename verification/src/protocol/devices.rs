//! The list of devices that adb prints.
use crate::text::{chars_of, copy_text, split_lines, split_words, string_of, trim};
use crate::types::{new_uuid, AdbError, Device, DeviceIdentity, DeviceState};
use vstd::prelude::*;

verus! {

/// The letter `c` in lower case, where it is one of the ASCII alphabet.
pub open spec fn ascii_lower(c: char) -> char {
    if 'A' <= c <= 'Z' {
        (c as u32 + 32) as char
    } else {
        c
    }
}

/// The two texts differ at most in the case of ASCII letters.
pub open spec fn same_but_case(a: Seq<char>, b: Seq<char>) -> bool {
    a.len() == b.len() && forall|i: int|
        0 <= i < a.len() ==> ascii_lower(#[trigger] a[i]) == ascii_lower(b[i])
}

pub fn lower(c: char) -> (r: char)
    ensures
        r == ascii_lower(c),
{
    if 'A' <= c && c <= 'Z' {
        (c as u8 + 32) as char
    } else {
        c
    }
}

pub fn eq_but_case(a: &[char], b: &[char]) -> (r: bool)
    ensures
        r == same_but_case(a@, b@),
{
    if a.len() != b.len() {
        return false;
    }
    let mut i: usize = 0;
    while i < a.len()
        invariant
            i <= a@.len(),
            a@.len() == b@.len(),
            forall|j: int| 0 <= j < i ==> ascii_lower(#[trigger] a@[j]) == ascii_lower(b@[j]),
        decreases a@.len() - i,
    {
        if lower(a[i]) != lower(b[i]) {
            assert(ascii_lower(a@[i as int]) != ascii_lower(b@[i as int]));
            return false;
        }
        i += 1;
    }
    true
}

/// The state that adb prints as `word`.
pub open spec fn state_of(word: Seq<char>) -> crate::types::State {
    if word == "device"@ {
        crate::types::State::Device
    } else if word == "offline"@ {
        crate::types::State::Offline
    } else if word == "unauthorized"@ {
        crate::types::State::Unauthorized
    } else {
        crate::types::State::Unknown(word)
    }
}

pub fn parse_state(word: &[char]) -> (r: DeviceState)
    ensures
        r@ == state_of(word@),
{
    let s = string_of(word);
    if crate::text::same(s.as_str(), "device") {
        DeviceState::Device
    } else if crate::text::same(s.as_str(), "offline") {
        DeviceState::Offline
    } else if crate::text::same(s.as_str(), "unauthorized") {
        DeviceState::Unauthorized
    } else {
        DeviceState::Unknown(s)
    }
}

/// The address and the state on a line. Blank lines and the heading have none. A line
/// without a state stands for the state `unknown`.
pub open spec fn on_line(line: Seq<char>) -> Option<(Seq<char>, crate::types::State)> {
    let t = crate::text::trimmed(line);
    let w = crate::text::words(t);
    if t.len() == 0 || same_but_case(t, "List of devices attached"@) || w.len() == 0 {
        None
    } else {
        Some((w[0], state_of(if w.len() > 1 {
            w[1]
        } else {
            "unknown"@
        })))
    }
}

/// The addresses and states on the lines, in their order.
pub open spec fn on_lines(ls: Seq<Seq<char>>) -> Seq<(Seq<char>, crate::types::State)>
    decreases ls.len(),
{
    if ls.len() == 0 {
        Seq::empty()
    } else {
        let before = on_lines(ls.drop_last());
        match on_line(ls.last()) {
            Some(d) => before.push(d),
            None => before,
        }
    }
}

/// `std::str::from_utf8`: the text that the bytes encode, where they are valid UTF-8. Its
/// error is opaque, so nothing is said of it.
#[verifier::external_body]
fn text_of(b: &[u8]) -> (r: Result<String, std::str::Utf8Error>)
    ensures
        r is Ok <==> vstd::utf8::valid_utf8(b@),
        r matches Ok(s) ==> s@ == vstd::utf8::decode_utf8(b@),
{
    std::str::from_utf8(b).map(|s| s.to_string())
}

fn parse_line(line: &[char], heading: &[char]) -> (r: Option<(String, DeviceState)>)
    requires
        heading@ == "List of devices attached"@,
    ensures
        match r {
            Some((serial, state)) => on_line(line@) == Some((serial@, state@)),
            None => on_line(line@) is None,
        },
{
    let t = trim(line);
    if t.len() == 0 || eq_but_case(t, heading) {
        return None;
    }
    let w = split_words(t);
    assert(crate::text::texts(w@).len() == w@.len());
    if w.len() == 0 {
        return None;
    }
    assert(crate::text::texts(w@)[0] == w@[0]@);
    let serial = string_of(w[0].as_slice());
    let state = if w.len() > 1 {
        assert(crate::text::texts(w@)[1] == w@[1]@);
        parse_state(w[1].as_slice())
    } else {
        let unknown = chars_of("unknown");
        parse_state(unknown.as_slice())
    };
    Some((serial, state))
}

/// A device of which the list gave `serial` and `state`: its address stands for its
/// identity until more is known.
pub open spec fn listed_device(
    uuid: u128,
    serial: Seq<char>,
    state: crate::types::State,
) -> crate::types::DeviceView {
    crate::types::DeviceView {
        uuid,
        id: serial,
        serial,
        state,
        name: Seq::empty(),
        identity: crate::types::Identity::only(serial),
    }
}

/// The device that a line of the list stands for, under the number `uuid`.
pub fn device_of(uuid: u128, serial: String, state: DeviceState) -> (r: Device)
    ensures
        r@ == listed_device(uuid, serial@, state@),
{
    let identity = DeviceIdentity::from_addr(serial.as_str());
    let id = copy_text(&serial);
    let r = Device { uuid, id, serial, state, name: String::new(), identity };
    assert(r@ =~= listed_device(uuid, serial@, state@));
    r
}

/// The devices of the list that adb prints for `devices` and `track-devices`: one on each
/// line, its address and its state. Each gets a number of its own, at random.
pub fn parse_devices(stdout: &[u8]) -> (r: Result<Vec<Device>, AdbError>)
    ensures
        !vstd::utf8::valid_utf8(stdout@) <==> r matches Err(AdbError::Utf8(_)),
        vstd::utf8::valid_utf8(stdout@) <==> r is Ok,
        r matches Ok(v) ==> {
            let found = on_lines(crate::text::lines(vstd::utf8::decode_utf8(stdout@)));
            &&& v@.len() == found.len()
            &&& forall|i: int|
                0 <= i < v@.len() ==> crate::types::is_random_uuid(#[trigger] v@[i].uuid) && v@[i]@
                    == listed_device(v@[i].uuid, found[i].0, found[i].1)
        },
{
    let text = match text_of(stdout) {
        Ok(s) => s,
        Err(e) => return Err(AdbError::Utf8(e)),
    };
    let chars = chars_of(text.as_str());
    let ls = split_lines(chars.as_slice());
    let heading = chars_of("List of devices attached");
    let ghost all = crate::text::texts(ls@);
    let mut r: Vec<Device> = Vec::new();
    let mut i: usize = 0;
    assert(all.take(0) =~= Seq::empty());
    while i < ls.len()
        invariant
            i <= ls@.len(),
            all == crate::text::texts(ls@),
            heading@ == "List of devices attached"@,
            r@.len() == on_lines(all.take(i as int)).len(),
            forall|j: int|
                0 <= j < r@.len() ==> crate::types::is_random_uuid(#[trigger] r@[j].uuid) && r@[j]@
                    == listed_device(
                    r@[j].uuid,
                    on_lines(all.take(i as int))[j].0,
                    on_lines(all.take(i as int))[j].1,
                ),
        decreases ls@.len() - i,
    {
        proof {
            let t = all.take(i + 1);
            assert(t.drop_last() =~= all.take(i as int));
            assert(t.last() == ls@[i as int]@);
        }
        match parse_line(ls[i].as_slice(), heading.as_slice()) {
            Some((serial, state)) => {
                r.push(device_of(new_uuid(), serial, state));
            },
            None => {},
        }
        i += 1;
    }
    assert(all.take(i as int) =~= all);
    Ok(r)
}

/// `t` is the heading of the list, with its letters in whatever case.
pub open spec fn is_heading(t: Seq<char>) -> bool {
    let h = "List of devices attached"@;
    t.len() == h.len() && forall|i: int|
        0 <= i < t.len() ==> (#[trigger] t[i] == h[i] || ('A' <= h[i] <= 'Z' && t[i] as int
            == h[i] as int + 32) || ('a' <= h[i] <= 'z' && t[i] as int == h[i] as int - 32))
}

proof fn lemma_heading(t: Seq<char>)
    ensures
        same_but_case(t, "List of devices attached"@) == is_heading(t),
{
    let h = "List of devices attached"@;
    if t.len() == h.len() {
        assert forall|i: int| 0 <= i < t.len() implies (ascii_lower(#[trigger] t[i]) == ascii_lower(
            h[i],
        )) == (t[i] == h[i] || ('A' <= h[i] <= 'Z' && t[i] as int == h[i] as int + 32) || ('a'
            <= h[i] <= 'z' && t[i] as int == h[i] as int - 32)) by {}
        if is_heading(t) {
            assert forall|i: int| 0 <= i < t.len() implies ascii_lower(#[trigger] t[i])
                == ascii_lower(h[i]) by {}
        }
        if same_but_case(t, h) {
            assert forall|i: int| 0 <= i < t.len() implies (#[trigger] t[i] == h[i] || ('A' <= h[i]
                <= 'Z' && t[i] as int == h[i] as int + 32) || ('a' <= h[i] <= 'z' && t[i] as int
                == h[i] as int - 32)) by {}
        }
    }
}

/// A line that begins with an address and a state, with white space between them and whatever
/// words behind, tells of the device at that address in that state. Other words than the three
/// that adb has for a state are kept.
pub proof fn law_line_tells_of_a_device(
    serial: Seq<char>,
    gap: char,
    state: Seq<char>,
    rest: Seq<char>,
)
    requires
        serial.len() > 0 && state.len() > 0,
        forall|i: int| 0 <= i < serial.len() ==> !crate::text::is_space(#[trigger] serial[i]),
        forall|i: int| 0 <= i < state.len() ==> !crate::text::is_space(#[trigger] state[i]),
        crate::text::is_space(gap),
        rest.len() > 0 ==> crate::text::is_space(rest.first()) && !crate::text::is_space(
            rest.last(),
        ),
        !is_heading(serial.push(gap) + state + rest),
    ensures
        on_line(serial.push(gap) + state + rest) matches Some(d) && d.0 == serial && match d.1 {
            crate::types::State::Device => state == "device"@,
            crate::types::State::Offline => state == "offline"@,
            crate::types::State::Unauthorized => state == "unauthorized"@,
            crate::types::State::Unknown(w) => w == state && state != "device"@ && state
                != "offline"@ && state != "unauthorized"@,
        },
{
    let line = serial.push(gap) + state + rest;
    let none = Seq::<char>::empty();
    assert(line.first() == serial[0]);
    assert(line.last() == if rest.len() > 0 {
        rest.last()
    } else {
        state[state.len() - 1]
    });
    crate::text::law_padding_is_trimmed(none, line, none);
    assert(none + line + none =~= line);
    lemma_heading(line);
    crate::text::law_first_word_is_read(serial, gap, state + rest);
    assert(serial.push(gap) + (state + rest) =~= line);
    if rest.len() > 0 {
        crate::text::law_first_word_is_read(state, rest.first(), rest.skip(1));
        assert(state.push(rest.first()) + rest.skip(1) =~= state + rest);
    } else {
        crate::text::law_first_word_is_read(state, gap, rest);
        assert(state + rest =~= state);
    }
}

/// A line with an address alone tells of a device in a state that is not known; white space around
/// it makes no difference.
pub proof fn law_address_alone_is_a_device(before: Seq<char>, serial: Seq<char>, after: Seq<char>)
    requires
        serial.len() > 0,
        forall|i: int| 0 <= i < serial.len() ==> !crate::text::is_space(#[trigger] serial[i]),
        forall|i: int| 0 <= i < before.len() ==> crate::text::is_space(#[trigger] before[i]),
        forall|i: int| 0 <= i < after.len() ==> crate::text::is_space(#[trigger] after[i]),
    ensures
        on_line(before + serial + after) == Some(
            (serial, crate::types::State::Unknown("unknown"@)),
        ),
{
    reveal_strlit("List of devices attached");
    reveal_strlit("device");
    reveal_strlit("offline");
    reveal_strlit("unauthorized");
    reveal_strlit("unknown");
    crate::text::law_padding_is_trimmed(before, serial, after);
    lemma_heading(serial);
    if is_heading(serial) {
        assert(serial[4] == ' ');
    }
    crate::text::law_first_word_is_read(serial, ' ', Seq::empty());
    assert("unknown"@[2] == 'k');
    assert("offline"@[2] == 'f');
}

/// The heading and blank lines tell of no device.
pub proof fn law_heading_is_no_device(line: Seq<char>)
    requires
        is_heading(line) || forall|i: int|
            0 <= i < line.len() ==> crate::text::is_space(#[trigger] line[i]),
    ensures
        on_line(line) is None,
{
    let none = Seq::<char>::empty();
    if is_heading(line) {
        reveal_strlit("List of devices attached");
        assert(line[0] == 'L' || line[0] == 'l');
        assert(line[23] == 'd' || line[23] == 'D');
        assert(none + line + none =~= line);
        crate::text::law_padding_is_trimmed(none, line, none);
        lemma_heading(line);
    } else {
        assert(line + none + none =~= line);
        crate::text::law_padding_is_trimmed(line, none, none);
    }
}

/// The devices of a list are those of its lines, in their order: what some lines tell and then what
/// the others tell.
pub proof fn law_lines_tell_in_order(a: Seq<Seq<char>>, b: Seq<Seq<char>>)
    ensures
        on_lines(a + b) == on_lines(a) + on_lines(b),
        b.len() == 1 ==> on_lines(b) == match on_line(b[0]) {
            Some(d) => seq![d],
            None => Seq::empty(),
        },
        b.len() == 0 ==> on_lines(b).len() == 0,
    decreases b.len(),
{
    reveal_with_fuel(on_lines, 2);
    if b.len() > 0 {
        law_lines_tell_in_order(a, b.drop_last());
        assert((a + b).drop_last() =~= a + b.drop_last());
        assert((a + b).last() == b.last());
        assert(on_lines(a + b) =~= on_lines(a) + on_lines(b));
    } else {
        assert(a + b =~= a);
        assert(on_lines(a) + on_lines(b) =~= on_lines(a));
    }
}

/// A listed device goes by its address until more is known of it: the address is what it is listed
/// under and what it is called by, and it has no name.
pub proof fn law_listed_device_goes_by_its_address(
    uuid: u128,
    serial: Seq<char>,
    state: crate::types::State,
)
    ensures
        ({
            let d = listed_device(uuid, serial, state);
            &&& d.uuid == uuid
            &&& d.serial == serial && d.id == serial && d.state == state
            &&& d.name.len() == 0
            &&& d.identity.usb == Some(serial) || d.identity.mdns == Some(serial) || d.identity.ip
                == Some(serial)
        }),
{
}

} // verus!
