//! The byte stream of a phone that is reached over TCP: clipboard texts and audio in one
//! direction, clipboard texts in the other.
use crate::text::{lossy_text, text_lossy, text_strict};
use crate::wire::{be_bytes, be_value, copy_bytes, le_value, push_be, push_bytes, read_be, read_le};
use vstd::prelude::*;

verus! {

/// The type of a clipboard text from the phone.
pub const CLIPBOARD: u8 = 0x00;

/// The types of audio from the phone.
pub const AUDIO: u8 = 0x0A;

pub const AUDIO_CONFIG: u8 = 0x0B;

/// Audio of more bytes ends the stream.
pub const MAX_AUDIO: u64 = 524_288;

/// How many bytes the phone's name takes at the beginning of the stream.
pub const NAME_LEN: usize = 64;

/// What stands at the beginning of the stream.
#[derive(Debug, Clone)]
pub enum StreamStep {
    /// Too little: so many bytes are needed in all.
    Need(u64),
    /// A clipboard text; `None` where it is no text or is not wanted.
    Clip { text: Option<String>, used: usize },
    /// Audio.
    Audio { pts: u64, data: Vec<u8>, used: usize },
    /// A type that is not known: whatever comes next is read and thrown away.
    Dump,
    /// The stream cannot be read any further.
    Stop,
}

/// What stands at the beginning of the stream.
#[verifier::ext_equal]
pub enum Item {
    Need(nat),
    Clip { bytes: Seq<u8>, used: nat },
    Audio { pts: u64, data: Seq<u8>, used: nat },
    Dump,
    Stop,
}

/// What stands at the beginning of the stream `b`.
pub open spec fn item(b: Seq<u8>) -> Item {
    if b.len() < 1 {
        Item::Need(1)
    } else if b[0] == CLIPBOARD {
        if b.len() < 5 {
            Item::Need(5)
        } else {
            let n = be_value(b.subrange(1, 5));
            if b.len() < 5 + n {
                Item::Need(5 + n)
            } else {
                Item::Clip { bytes: b.subrange(5, 5 + n as int), used: 5 + n }
            }
        }
    } else if b[0] == AUDIO || b[0] == AUDIO_CONFIG {
        if b.len() < 13 {
            Item::Need(13)
        } else {
            let n = le_value(b.subrange(9, 13));
            if n > MAX_AUDIO {
                Item::Stop
            } else if b.len() < 13 + n {
                Item::Need(13 + n)
            } else {
                Item::Audio {
                    pts: be_value(b.subrange(1, 9)) as u64,
                    data: b.subrange(13, 13 + n as int),
                    used: 13 + n,
                }
            }
        }
    } else {
        Item::Dump
    }
}

/// The text that is passed on where the phone sent `bytes`.
pub open spec fn clip_text(bytes: Seq<u8>, enabled: bool) -> Option<Seq<char>> {
    if enabled && vstd::utf8::valid_utf8(bytes) {
        Some(vstd::utf8::decode_utf8(bytes))
    } else {
        None
    }
}

/// Reads what stands at the beginning of the stream. `clipboard_enabled` is whether clipboard
/// texts are wanted.
pub fn next_message(buf: &[u8], clipboard_enabled: bool) -> (r: StreamStep)
    ensures
        match item(buf@) {
            Item::Need(n) => r matches StreamStep::Need(m) && m == n,
            Item::Clip { bytes, used } => r matches StreamStep::Clip { text, used: u } && u == used
                && crate::text::string_view(text) == clip_text(bytes, clipboard_enabled),
            Item::Audio { pts, data, used } => r matches StreamStep::Audio {
                pts: p,
                data: d,
                used: u,
            } && p == pts && d@ == data && u == used,
            Item::Dump => r == StreamStep::Dump,
            Item::Stop => r == StreamStep::Stop,
        },
{
    if buf.len() < 1 {
        return StreamStep::Need(1);
    }
    proof {
        crate::wire::lemma_pow256_values();
    }
    if buf[0] == CLIPBOARD {
        if buf.len() < 5 {
            return StreamStep::Need(5);
        }
        proof {
            crate::wire::lemma_be_value_bound(buf@.subrange(1, 5));
        }
        let n: u64 = read_be(buf, 1, 4);
        if (buf.len() as u64) < 5 + n {
            return StreamStep::Need(5 + n);
        }
        let end: usize = 5 + n as usize;
        let bytes: &[u8] = &buf[5..end];
        assert(bytes@ =~= buf@.subrange(5, 5 + n as int));
        let text: Option<String> = if clipboard_enabled {
            match text_strict(copy_bytes(bytes)) {
                Ok(t) => Some(t),
                Err(_) => None,
            }
        } else {
            None
        };
        StreamStep::Clip { text, used: end }
    } else if buf[0] == AUDIO || buf[0] == AUDIO_CONFIG {
        if buf.len() < 13 {
            return StreamStep::Need(13);
        }
        proof {
            crate::wire::lemma_le_value_bound(buf@.subrange(9, 13));
        }
        let n: u64 = read_le(buf, 9, 4);
        if n > MAX_AUDIO {
            return StreamStep::Stop;
        }
        if (buf.len() as u64) < 13 + n {
            return StreamStep::Need(13 + n);
        }
        let end: usize = 13 + n as usize;
        let pts: u64 = read_be(buf, 1, 8);
        let data: &[u8] = &buf[13..end];
        assert(data@ =~= buf@.subrange(13, 13 + n as int));
        StreamStep::Audio { pts, data: copy_bytes(data), used: end }
    } else {
        StreamStep::Dump
    }
}

/// What ends the name: the first byte 0.
pub open spec fn name_end(b: Seq<u8>) -> nat
    decreases b.len(),
{
    if b.len() == 0 || b.first() == 0 {
        0
    } else {
        1 + name_end(b.skip(1))
    }
}

/// The name that the phone sends at the beginning of the stream; `None` where it is empty.
pub fn device_name(buf: &[u8]) -> (r: Option<String>)
    ensures
        match r {
            Some(s) => s@ == lossy_text(buf@.take(name_end(buf@) as int)) && s@.len() > 0,
            None => lossy_text(buf@.take(name_end(buf@) as int)).len() == 0,
        },
{
    let mut i: usize = 0;
    assert(buf@.skip(0) =~= buf@);
    while i < buf.len() && buf[i] != 0
        invariant
            i <= buf@.len(),
            name_end(buf@) == i + name_end(buf@.skip(i as int)),
        decreases buf@.len() - i,
    {
        assert(buf@.skip(i as int).skip(1) =~= buf@.skip(i + 1));
        i += 1;
    }
    let name: &[u8] = &buf[0..i];
    assert(name@ =~= buf@.take(i as int));
    let s = text_lossy(name);
    if s.as_str().unicode_len() == 0 {
        None
    } else {
        Some(s)
    }
}

/// The message that puts a text of these bytes on the phone's clipboard: the type, a
/// sequence number of 0, no pasting, and the text after its length.
pub open spec fn clipboard_frame(text: Seq<u8>) -> Seq<u8> {
    seq![0x09u8] + Seq::new(8, |i: int| 0u8) + seq![0u8] + be_bytes(text.len(), 4) + text
}

/// The message that puts `text` on the phone's clipboard.
pub fn build_clipboard_frame(text: &str) -> (r: Vec<u8>)
    ensures
        r@ == clipboard_frame(vstd::utf8::encode_utf8(text@)),
{
    let bytes: &[u8] = text.as_bytes();
    let mut buf: Vec<u8> = Vec::new();
    buf.push(0x09);
    let mut i: usize = 0;
    while i < 8
        invariant
            i <= 8,
            buf@ =~= seq![0x09u8] + Seq::new(i as nat, |j: int| 0u8),
        decreases 8 - i,
    {
        buf.push(0);
        i += 1;
    }
    buf.push(0);
    push_be(&mut buf, bytes.len() as u64, 4);
    push_bytes(&mut buf, bytes);
    assert(buf@ =~= clipboard_frame(vstd::utf8::encode_utf8(text@)));
    buf
}

/// What the phone sends is read back, and what follows it is left for the next time.
pub proof fn law_stream_is_read_back(text: Seq<u8>, audio: Seq<u8>, pts: u64, rest: Seq<u8>)
    requires
        text.len() <= u32::MAX,
        audio.len() <= MAX_AUDIO,
    ensures
        item(seq![CLIPBOARD] + be_bytes(text.len(), 4) + text + rest) == (Item::Clip {
            bytes: text,
            used: 5 + text.len(),
        }),
        item(
            seq![AUDIO] + be_bytes(pts as nat, 8) + crate::wire::le_bytes(audio.len(), 4) + audio
                + rest,
        ) == (Item::Audio { pts, data: audio, used: 13 + audio.len() }),
{
    crate::wire::lemma_pow256_values();
    crate::wire::lemma_be_bytes_len(text.len(), 4);
    crate::wire::law_be_value_of_be_bytes(text.len(), 4);
    let a = seq![CLIPBOARD] + be_bytes(text.len(), 4) + text + rest;
    assert(a.subrange(1, 5) =~= be_bytes(text.len(), 4));
    assert(a.subrange(5, 5 + text.len() as int) =~= text);
    crate::wire::lemma_be_bytes_len(pts as nat, 8);
    crate::wire::law_be_value_of_be_bytes(pts as nat, 8);
    crate::wire::lemma_le_bytes_len(audio.len(), 4);
    crate::wire::law_le_value_of_le_bytes(audio.len(), 4);
    let b = seq![AUDIO] + be_bytes(pts as nat, 8) + crate::wire::le_bytes(audio.len(), 4) + audio
        + rest;
    assert(b.subrange(1, 9) =~= be_bytes(pts as nat, 8));
    assert(b.subrange(9, 13) =~= crate::wire::le_bytes(audio.len(), 4));
    assert(b.subrange(13, 13 + audio.len() as int) =~= audio);
}

/// A message that has not come whole is waited for: no fewer bytes are asked for than are missing
/// for the next decision, and never more than the message has.
pub proof fn law_cut_message_is_waited_for(text: Seq<u8>, n: nat)
    requires
        text.len() <= u32::MAX,
        n < 5 + text.len(),
    ensures
        ({
            let whole = seq![0u8] + be_bytes(text.len(), 4) + text;
            let got = item(whole.take(n as int));
            &&& got is Need
            &&& n < got->Need_0 <= whole.len()
            &&& n >= 5 ==> got->Need_0 == whole.len()
        }),
{
    let whole = seq![0u8] + be_bytes(text.len(), 4) + text;
    crate::wire::lemma_pow256_values();
    crate::wire::lemma_be_bytes_len(text.len(), 4);
    crate::wire::law_be_value_of_be_bytes(text.len(), 4);
    if n >= 5 {
        assert(whole.take(n as int).subrange(1, 5) =~= be_bytes(text.len(), 4));
    }
}

/// The first byte says what follows: 0 a clipboard text, 10 and 11 audio. With any other the rest
/// is thrown away. Audio of more than half a mebibyte ends the stream.
pub proof fn law_first_byte_says_what_follows(b: Seq<u8>)
    requires
        b.len() > 0,
    ensures
        b[0] == 0 ==> item(b) is Clip || item(b) is Need,
        b[0] == 10 || b[0] == 11 ==> item(b) is Audio || item(b) is Need || item(b) is Stop,
        b[0] != 0 && b[0] != 10 && b[0] != 11 ==> item(b) is Dump,
        item(b) is Stop <==> (b[0] == 10 || b[0] == 11) && b.len() >= 13 && le_value(
            b.subrange(9, 13),
        ) > 524_288,
        b.len() >= 13 && b[0] == 11 ==> item(b) == item(b.update(0, 10)),
{
    if b.len() >= 13 && b[0] == 11 {
        let c = b.update(0, 10);
        assert(c.subrange(1, 9) =~= b.subrange(1, 9));
        assert(c.subrange(9, 13) =~= b.subrange(9, 13));
        let n = le_value(b.subrange(9, 13));
        if n <= MAX_AUDIO && b.len() >= 13 + n {
            assert(c.subrange(13, 13 + n as int) =~= b.subrange(13, 13 + n as int));
        }
    }
}

/// A text of the phone is passed on as it is where texts are wanted, and not at all where they are
/// not.
pub proof fn law_wanted_text_is_passed_on(text: Seq<char>)
    ensures
        clip_text(vstd::utf8::encode_utf8(text), true) == Some(text),
        clip_text(vstd::utf8::encode_utf8(text), false) is None,
{
    vstd::utf8::encode_utf8_valid_utf8(text);
    vstd::utf8::encode_utf8_decode_utf8(text);
}

/// The message for the phone's clipboard has its type first, nine zeros, the length of the text,
/// and the text: the length is that of what follows, so that the phone can read it back.
pub proof fn law_clipboard_message_is_readable(text: Seq<u8>, rest: Seq<u8>)
    requires
        text.len() <= u32::MAX,
    ensures
        ({
            let m = clipboard_frame(text) + rest;
            &&& m[0] == 9
            &&& forall|i: int| 1 <= i < 10 ==> #[trigger] m[i] == 0
            &&& be_value(m.subrange(10, 14)) == text.len()
            &&& m.subrange(14, 14 + text.len() as int) == text
            &&& clipboard_frame(text).len() == 14 + text.len()
        }),
{
    let m = clipboard_frame(text) + rest;
    crate::wire::lemma_pow256_values();
    crate::wire::lemma_be_bytes_len(text.len(), 4);
    crate::wire::law_be_value_of_be_bytes(text.len(), 4);
    assert(m.subrange(10, 14) =~= be_bytes(text.len(), 4));
    assert(m.subrange(14, 14 + text.len() as int) =~= text);
}

/// The phone's name goes up to the first byte 0.
pub proof fn law_name_ends_at_zero(name: Seq<u8>, rest: Seq<u8>)
    requires
        forall|i: int| 0 <= i < name.len() ==> #[trigger] name[i] != 0,
        rest.len() == 0 || rest[0] == 0,
    ensures
        name_end(name + rest) == name.len(),
    decreases name.len(),
{
    let b = name + rest;
    if name.len() > 0 {
        let t = name.skip(1);
        assert forall|i: int| 0 <= i < t.len() implies #[trigger] t[i] != 0 by {
            assert(t[i] == name[i + 1]);
        }
        law_name_ends_at_zero(t, rest);
        assert(b.first() == name[0]);
        assert(b.skip(1) =~= t + rest);
    } else {
        assert(b =~= rest);
    }
}

} // verus!
