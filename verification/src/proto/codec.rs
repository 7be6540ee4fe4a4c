//! Media datagrams: the fixed header, fragmentation and reassembly.
//!
//! Each datagram on a media port is a 33-byte big-endian header followed by its
//! payload. A message longer than [`MAX_FRAGMENT`] travels as several datagrams that
//! share the message's sequence number and identifier.
use crate::wire::{copy_bytes, push_be, push_bytes, read_be};
use std::collections::HashMap;
use vstd::prelude::*;

verus! {

broadcast use vstd::std_specs::hash::group_hash_axioms;

/// The largest payload of one datagram that is safe on Wi-Fi.
pub const MAX_FRAGMENT: usize = 1200;

/// The length of a media datagram's header.
pub const MEDIA_HDR_LEN: usize = 33;

/// The `frag_total` that marks an OPEN datagram, which registers a media endpoint.
pub const MEDIA_OPEN_TOTAL: u16 = 0xFFFF;

pub const MEDIA_FLAG_CONFIG: u32 = 1;

pub const MEDIA_FLAG_KEYFRAME: u32 = 2;

pub const MEDIA_FLAG_SESSION: u32 = 4;

pub const MEDIA_STREAM_AUDIO: u32 = 1;

pub const MEDIA_STREAM_VIDEO: u32 = 2;

/// The video port lies this far above the control port.
pub const VIDEO_PORT_OFFSET: u16 = 1;

/// The audio port lies this far above the control port.
pub const AUDIO_PORT_OFFSET: u16 = 2;

/// One media datagram; the payload borrows the buffer that it was read from.
#[derive(Debug, Clone, PartialEq, Eq)]
pub struct MediaFragment<'a> {
    pub client_id: u32,
    pub msg_id: u32,
    pub seq: u32,
    pub frag: u16,
    pub frag_total: u16,
    pub pts: u64,
    /// The generation of the audio capture that made the frame; 0 for video.
    pub revision: u64,
    pub flags: u8,
    pub payload: &'a [u8],
}

/// What a media datagram says.
#[verifier::ext_equal]
pub struct Datagram {
    pub client_id: u32,
    pub msg_id: u32,
    pub seq: u32,
    pub frag: u16,
    pub frag_total: u16,
    pub pts: u64,
    pub revision: u64,
    pub flags: u8,
    pub payload: Seq<u8>,
}

impl<'a> View for MediaFragment<'a> {
    type V = Datagram;

    open spec fn view(&self) -> Datagram {
        Datagram {
            client_id: self.client_id,
            msg_id: self.msg_id,
            seq: self.seq,
            frag: self.frag,
            frag_total: self.frag_total,
            pts: self.pts,
            revision: self.revision,
            flags: self.flags,
            payload: self.payload@,
        }
    }
}

impl Datagram {
    /// The datagram's bytes on the wire.
    pub open spec fn wire(self) -> Seq<u8> {
        crate::wire::be_bytes(self.client_id as nat, 4)
            + crate::wire::be_bytes(self.msg_id as nat, 4)
            + crate::wire::be_bytes(self.seq as nat, 4)
            + crate::wire::be_bytes(self.frag as nat, 2)
            + crate::wire::be_bytes(self.frag_total as nat, 2)
            + crate::wire::be_bytes(self.pts as nat, 8)
            + crate::wire::be_bytes(self.revision as nat, 8)
            + seq![self.flags]
            + self.payload
    }

    /// What the bytes `b` say, where they are at least a header long.
    pub open spec fn parse(b: Seq<u8>) -> Datagram {
        Datagram {
            client_id: crate::wire::be_value(b.subrange(0, 4)) as u32,
            msg_id: crate::wire::be_value(b.subrange(4, 8)) as u32,
            seq: crate::wire::be_value(b.subrange(8, 12)) as u32,
            frag: crate::wire::be_value(b.subrange(12, 14)) as u16,
            frag_total: crate::wire::be_value(b.subrange(14, 16)) as u16,
            pts: crate::wire::be_value(b.subrange(16, 24)) as u64,
            revision: crate::wire::be_value(b.subrange(24, 32)) as u64,
            flags: b[32],
            payload: b.subrange(MEDIA_HDR_LEN as int, b.len() as int),
        }
    }
}

/// Appends the datagram's bytes to `out`.
pub fn encode_media_datagram(f: &MediaFragment, out: &mut Vec<u8>)
    ensures
        final(out)@ == old(out)@ + f@.wire(),
{
    push_be(out, f.client_id as u64, 4);
    push_be(out, f.msg_id as u64, 4);
    push_be(out, f.seq as u64, 4);
    push_be(out, f.frag as u64, 2);
    push_be(out, f.frag_total as u64, 2);
    push_be(out, f.pts, 8);
    push_be(out, f.revision, 8);
    out.push(f.flags);
    push_bytes(out, f.payload);
    assert(out@ =~= old(out)@ + f@.wire());
}

/// Reads a datagram; `None` where the bytes are shorter than a header. An empty payload
/// is in order.
pub fn decode_media_datagram(buf: &[u8]) -> (r: Option<MediaFragment<'_>>)
    ensures
        r is None <==> buf@.len() < MEDIA_HDR_LEN,
        r matches Some(f) ==> f@ == Datagram::parse(buf@) && f@.wire() == buf@,
{
    if buf.len() < MEDIA_HDR_LEN {
        return None;
    }
    proof {
        crate::wire::lemma_pow256_values();
        law_wire_of_parse(buf@);
    }
    let f = MediaFragment {
        client_id: read_be(buf, 0, 4) as u32,
        msg_id: read_be(buf, 4, 4) as u32,
        seq: read_be(buf, 8, 4) as u32,
        frag: read_be(buf, 12, 2) as u16,
        frag_total: read_be(buf, 14, 2) as u16,
        pts: read_be(buf, 16, 8),
        revision: read_be(buf, 24, 8),
        flags: buf[32],
        payload: &buf[MEDIA_HDR_LEN..buf.len()],
    };
    assert(f@ =~= Datagram::parse(buf@));
    Some(f)
}

/// Reading the bytes that a datagram is written as gives the datagram back.
pub proof fn law_parse_of_wire(d: Datagram)
    ensures
        d.wire().len() == MEDIA_HDR_LEN + d.payload.len(),
        Datagram::parse(d.wire()) == d,
{
    let w = d.wire();
    crate::wire::lemma_pow256_values();
    crate::wire::lemma_be_bytes_len(d.client_id as nat, 4);
    crate::wire::lemma_be_bytes_len(d.msg_id as nat, 4);
    crate::wire::lemma_be_bytes_len(d.seq as nat, 4);
    crate::wire::lemma_be_bytes_len(d.frag as nat, 2);
    crate::wire::lemma_be_bytes_len(d.frag_total as nat, 2);
    crate::wire::lemma_be_bytes_len(d.pts as nat, 8);
    crate::wire::lemma_be_bytes_len(d.revision as nat, 8);
    crate::wire::law_be_value_of_be_bytes(d.client_id as nat, 4);
    crate::wire::law_be_value_of_be_bytes(d.msg_id as nat, 4);
    crate::wire::law_be_value_of_be_bytes(d.seq as nat, 4);
    crate::wire::law_be_value_of_be_bytes(d.frag as nat, 2);
    crate::wire::law_be_value_of_be_bytes(d.frag_total as nat, 2);
    crate::wire::law_be_value_of_be_bytes(d.pts as nat, 8);
    crate::wire::law_be_value_of_be_bytes(d.revision as nat, 8);
    assert(w.subrange(0, 4) =~= crate::wire::be_bytes(d.client_id as nat, 4));
    assert(w.subrange(4, 8) =~= crate::wire::be_bytes(d.msg_id as nat, 4));
    assert(w.subrange(8, 12) =~= crate::wire::be_bytes(d.seq as nat, 4));
    assert(w.subrange(12, 14) =~= crate::wire::be_bytes(d.frag as nat, 2));
    assert(w.subrange(14, 16) =~= crate::wire::be_bytes(d.frag_total as nat, 2));
    assert(w.subrange(16, 24) =~= crate::wire::be_bytes(d.pts as nat, 8));
    assert(w.subrange(24, 32) =~= crate::wire::be_bytes(d.revision as nat, 8));
    assert(w.subrange(33, w.len() as int) =~= d.payload);
    assert(Datagram::parse(w) =~= d);
}

/// Writing what a byte string says gives that byte string back.
pub proof fn law_wire_of_parse(b: Seq<u8>)
    requires
        b.len() >= MEDIA_HDR_LEN,
    ensures
        Datagram::parse(b).wire() == b,
{
    crate::wire::lemma_pow256_values();
    crate::wire::lemma_be_value_bound(b.subrange(0, 4));
    crate::wire::lemma_be_value_bound(b.subrange(4, 8));
    crate::wire::lemma_be_value_bound(b.subrange(8, 12));
    crate::wire::lemma_be_value_bound(b.subrange(12, 14));
    crate::wire::lemma_be_value_bound(b.subrange(14, 16));
    crate::wire::lemma_be_value_bound(b.subrange(16, 24));
    crate::wire::lemma_be_value_bound(b.subrange(24, 32));
    crate::wire::law_be_bytes_of_be_value(b.subrange(0, 4));
    crate::wire::law_be_bytes_of_be_value(b.subrange(4, 8));
    crate::wire::law_be_bytes_of_be_value(b.subrange(8, 12));
    crate::wire::law_be_bytes_of_be_value(b.subrange(12, 14));
    crate::wire::law_be_bytes_of_be_value(b.subrange(14, 16));
    crate::wire::law_be_bytes_of_be_value(b.subrange(16, 24));
    crate::wire::law_be_bytes_of_be_value(b.subrange(24, 32));
    assert(Datagram::parse(b).wire() =~= b);
}

/// A media message as its sender hands it to [`media_datagrams`].
#[verifier::ext_equal]
pub struct Outgoing {
    pub client_id: u32,
    pub seq: u32,
    pub msg_id: u32,
    pub pts: u64,
    pub revision: u64,
    pub flags: u32,
    pub data: Seq<u8>,
}

/// How many datagrams carry `len` bytes: at least one.
pub open spec fn fragment_count(len: nat) -> nat {
    if len == 0 {
        1
    } else {
        (len + MAX_FRAGMENT - 1) as nat / MAX_FRAGMENT as nat
    }
}

/// The bytes of `data` that the `i`-th datagram carries.
pub open spec fn chunk(data: Seq<u8>, i: int) -> Seq<u8> {
    let end = if (i + 1) * MAX_FRAGMENT < data.len() {
        (i + 1) * MAX_FRAGMENT
    } else {
        data.len() as int
    };
    data.subrange(i * MAX_FRAGMENT, end)
}

impl Outgoing {
    pub open spec fn count(self) -> nat {
        fragment_count(self.data.len())
    }

    /// The `i`-th datagram of the message. The two 16-bit counters and the flags byte
    /// keep the low bits of what they count; a message in one piece has `frag_total` 0.
    pub open spec fn fragment(self, i: int) -> Datagram {
        Datagram {
            client_id: self.client_id,
            msg_id: self.msg_id,
            seq: self.seq,
            frag: i as u16,
            frag_total: if self.count() == 1 {
                0
            } else {
                self.count() as u16
            },
            pts: self.pts,
            revision: self.revision,
            flags: self.flags as u8,
            payload: chunk(self.data, i),
        }
    }

    /// What the receiver gets of the message.
    pub open spec fn media(self) -> Media {
        Media { pts: self.pts, revision: self.revision, flags: self.flags, data: self.data }
    }
}

/// Cuts a media message into datagrams that share its sequence number and identifier;
/// every one of them carries the whole of the message's metadata.
#[allow(clippy::too_many_arguments)]
pub fn media_datagrams(
    client_id: u32,
    msg_seq: u32,
    msg_id: u32,
    pts: u64,
    revision: u64,
    flags: u32,
    data: &[u8],
) -> (r: Vec<Vec<u8>>)
    ensures
        ({
            let m = Outgoing {
                client_id,
                seq: msg_seq,
                msg_id,
                pts,
                revision,
                flags,
                data: data@,
            };
            &&& r@.len() == m.count()
            &&& forall|i: int| 0 <= i < r@.len() ==> (#[trigger] r@[i])@ == m.fragment(i).wire()
        }),
{
    let ghost m = Outgoing {
        client_id,
        seq: msg_seq,
        msg_id,
        pts,
        revision,
        flags,
        data: data@,
    };
    let total: usize = if data.len() == 0 {
        1
    } else {
        (data.len() - 1) / MAX_FRAGMENT + 1
    };
    assert(total == m.count());
    let mut r: Vec<Vec<u8>> = Vec::new();
    let mut i: usize = 0;
    while i < total
        invariant
            i <= total,
            total == m.count(),
            m == (Outgoing { client_id, seq: msg_seq, msg_id, pts, revision, flags, data: data@ }),
            r@.len() == i,
            forall|j: int| 0 <= j < i ==> (#[trigger] r@[j])@ == m.fragment(j).wire(),
        decreases total - i,
    {
        assert(data.len() == data@.len());
        assert(i * MAX_FRAGMENT <= data@.len());
        let start: usize = i * MAX_FRAGMENT;
        let end: usize = if data.len() - start > MAX_FRAGMENT {
            start + MAX_FRAGMENT
        } else {
            data.len()
        };
        let f = MediaFragment {
            client_id,
            msg_id,
            seq: msg_seq,
            frag: #[verifier::truncate] (i as u16),
            frag_total: if total == 1 {
                0
            } else {
                #[verifier::truncate] (total as u16)
            },
            pts,
            revision,
            flags: #[verifier::truncate] (flags as u8),
            payload: &data[start..end],
        };
        assert(f@ =~= m.fragment(i as int));
        let mut out: Vec<u8> = Vec::new();
        encode_media_datagram(&f, &mut out);
        assert(out@ =~= f@.wire());
        r.push(out);
        i += 1;
    }
    r
}

/// A message put together from its datagrams.
#[derive(Debug, Clone)]
pub struct AssembledMedia {
    pub pts: u64,
    /// The generation of the audio capture; 0 for video.
    pub revision: u64,
    pub flags: u32,
    pub data: Vec<u8>,
}

/// What an assembled message says.
#[verifier::ext_equal]
pub struct Media {
    pub pts: u64,
    pub revision: u64,
    pub flags: u32,
    pub data: Seq<u8>,
}

impl View for AssembledMedia {
    type V = Media;

    open spec fn view(&self) -> Media {
        Media { pts: self.pts, revision: self.revision, flags: self.flags, data: self.data@ }
    }
}

pub open spec fn media_view(m: Option<AssembledMedia>) -> Option<Media> {
    match m {
        Some(a) => Some(a@),
        None => None,
    }
}

/// A message of which some datagrams have come.
struct Part {
    seq: u32,
    frags: Vec<Option<Vec<u8>>>,
    n: usize,
    pts: u64,
    revision: u64,
    flags: u32,
    touched: u64,
}

/// A message of which some datagrams have come, as the contracts speak of it.
#[verifier::ext_equal]
pub struct Partial {
    pub seq: u32,
    /// One place for each datagram of the message, filled where it has come.
    pub frags: Seq<Option<Seq<u8>>>,
    pub pts: u64,
    pub revision: u64,
    pub flags: u32,
    /// When a datagram of the message last came.
    pub touched: u64,
}

pub open spec fn bytes_view(o: Option<Vec<u8>>) -> Option<Seq<u8>> {
    match o {
        Some(v) => Some(v@),
        None => None,
    }
}

impl View for Part {
    type V = Partial;

    closed spec fn view(&self) -> Partial {
        Partial {
            seq: self.seq,
            frags: self.frags@.map_values(|o: Option<Vec<u8>>| bytes_view(o)),
            pts: self.pts,
            revision: self.revision,
            flags: self.flags,
            touched: self.touched,
        }
    }
}

/// How many places are filled.
pub open spec fn filled_count(frags: Seq<Option<Seq<u8>>>) -> nat
    decreases frags.len(),
{
    if frags.len() == 0 {
        0
    } else {
        filled_count(frags.drop_last()) + if frags.last() is Some {
            1nat
        } else {
            0nat
        }
    }
}

/// The bytes of the filled places, in order.
pub open spec fn joined(frags: Seq<Option<Seq<u8>>>) -> Seq<u8>
    decreases frags.len(),
{
    if frags.len() == 0 {
        Seq::empty()
    } else {
        joined(frags.drop_last()) + match frags.last() {
            Some(b) => b,
            None => Seq::empty(),
        }
    }
}

/// Where every place is filled.
pub open spec fn all_filled(frags: Seq<Option<Seq<u8>>>) -> bool {
    forall|i: int| 0 <= i < frags.len() ==> #[trigger] frags[i] is Some
}

impl Partial {
    /// A message of which nothing has come yet.
    pub open spec fn fresh(f: Datagram, now: u64) -> Partial {
        Partial {
            seq: f.seq,
            frags: Seq::new(f.total(), |i: int| None),
            pts: f.pts,
            revision: f.revision,
            flags: f.flags as u32,
            touched: now,
        }
    }

    /// The message once `f` has come too. A place that is filled stays as it is, and the
    /// first datagram of the message decides on the metadata.
    pub open spec fn record(self, f: Datagram, now: u64) -> Partial {
        let i = f.frag as int;
        let first = self.frags[i] is None && f.frag == 0;
        Partial {
            frags: if self.frags[i] is None {
                self.frags.update(i, Some(f.payload))
            } else {
                self.frags
            },
            pts: if first {
                f.pts
            } else {
                self.pts
            },
            revision: if first {
                f.revision
            } else {
                self.revision
            },
            flags: if first {
                f.flags as u32
            } else {
                self.flags
            },
            touched: now,
            ..self
        }
    }

    pub open spec fn media(self) -> Media {
        Media {
            pts: self.pts,
            revision: self.revision,
            flags: self.flags,
            data: joined(self.frags),
        }
    }
}

impl Datagram {
    /// How many datagrams the message has.
    pub open spec fn total(self) -> nat {
        if self.frag_total == 0 {
            1
        } else {
            self.frag_total as nat
        }
    }
}

/// What a reassembler holds.
#[verifier::ext_equal]
pub struct Assembly {
    /// The sequence number of the message that was put together last; 0 before the first.
    pub last_seq: u32,
    /// The messages under way, by identifier.
    pub parts: Map<u32, Partial>,
}

impl Assembly {
    pub open spec fn empty() -> Assembly {
        Assembly { last_seq: 0, parts: Map::empty() }
    }

    /// Where the datagram belongs to a message that is over.
    pub open spec fn stale(self, f: Datagram) -> bool {
        f.seq < self.last_seq || (f.seq == self.last_seq && self.last_seq != 0
            && !self.parts.contains_key(f.msg_id))
    }

    /// Where the datagram is dropped at sight: it carries no media, it belongs to a message
    /// that is over, or its number is not below their count.
    pub open spec fn rejects(self, f: Datagram) -> bool {
        f.frag_total == MEDIA_OPEN_TOTAL || self.stale(f) || f.frag >= f.total()
    }

    /// Where the datagram has a place in the message under way that it belongs to. One that
    /// is dropped at sight, or is a message of its own, needs none.
    pub open spec fn fits(self, f: Datagram) -> bool {
        !self.rejects(f) && f.total() > 1 && self.parts.contains_key(f.msg_id)
            && self.parts[f.msg_id].seq == f.seq ==> f.frag < self.parts[f.msg_id].frags.len()
    }

    /// The datagram is recorded in `part`, which it may complete.
    pub open spec fn fill(self, part: Partial, f: Datagram, now: u64) -> (Assembly, Option<Media>) {
        let p = part.record(f, now);
        if all_filled(p.frags) {
            (
                Assembly { last_seq: f.seq, parts: self.parts.remove(f.msg_id) },
                Some(p.media()),
            )
        } else {
            (Assembly { parts: self.parts.insert(f.msg_id, p), ..self }, None)
        }
    }

    /// What a datagram does to the reassembler, and the message that it completes.
    pub open spec fn push(self, f: Datagram, now: u64) -> (Assembly, Option<Media>) {
        let id = f.msg_id;
        if self.rejects(f) {
            (self, None)
        } else if f.total() == 1 {
            (
                Assembly { last_seq: f.seq, parts: self.parts.remove(id) },
                Some(
                    Media {
                        pts: f.pts,
                        revision: f.revision,
                        flags: f.flags as u32,
                        data: f.payload,
                    },
                ),
            )
        } else if self.parts.contains_key(id) && self.parts[id].seq == f.seq {
            self.fill(self.parts[id], f, now)
        } else if self.parts.contains_key(id) && self.parts[id].seq > f.seq {
            (
                Assembly {
                    parts: self.parts.insert(id, Partial { touched: now, ..self.parts[id] }),
                    ..self
                },
                None,
            )
        } else if self.parts.contains_key(id) && f.seq == self.last_seq && self.last_seq != 0 {
            (Assembly { parts: self.parts.remove(id), ..self }, None)
        } else {
            self.fill(Partial::fresh(f, now), f, now)
        }
    }

    /// Whether a message under way is kept by a sweep.
    pub open spec fn lively(p: Partial, now: u64, timeout: u64) -> bool {
        (if now > p.touched {
            now - p.touched
        } else {
            0
        }) < timeout
    }

    /// The reassembler without the messages that have made no progress for `timeout`.
    pub open spec fn sweep(self, now: u64, timeout: u64) -> Assembly {
        Assembly {
            last_seq: self.last_seq,
            parts: self.parts.restrict(
                Set::new(
                    |id: u32|
                        self.parts.contains_key(id) && Assembly::lively(
                            self.parts[id],
                            now,
                            timeout,
                        ),
                ),
            ),
        }
    }
}

/// Filling a free place adds one to the count.
proof fn lemma_filled_count_update(frags: Seq<Option<Seq<u8>>>, i: int, b: Seq<u8>)
    requires
        0 <= i < frags.len(),
        frags[i] is None,
    ensures
        filled_count(frags.update(i, Some(b))) == filled_count(frags) + 1,
    decreases frags.len(),
{
    let u = frags.update(i, Some(b));
    if i == frags.len() - 1 {
        assert(u.drop_last() =~= frags.drop_last());
    } else {
        lemma_filled_count_update(frags.drop_last(), i, b);
        assert(u.drop_last() =~= frags.drop_last().update(i, Some(b)));
    }
}

/// The count reaches the number of places exactly where all are filled.
proof fn lemma_filled_count_full(frags: Seq<Option<Seq<u8>>>)
    ensures
        filled_count(frags) <= frags.len(),
        filled_count(frags) == frags.len() <==> all_filled(frags),
    decreases frags.len(),
{
    if frags.len() > 0 {
        let d = frags.drop_last();
        lemma_filled_count_full(d);
        if all_filled(d) && frags.last() is Some {
            assert forall|i: int| 0 <= i < frags.len() implies #[trigger] frags[i] is Some by {
                if i < d.len() {
                    assert(d[i] is Some);
                }
            }
        }
        if all_filled(frags) {
            assert forall|i: int| 0 <= i < d.len() implies #[trigger] d[i] is Some by {
                assert(frags[i] is Some);
            }
            assert(frags[frags.len() - 1] is Some);
        }
    }
}

proof fn lemma_filled_count_none(n: nat)
    ensures
        filled_count(Seq::new(n, |i: int| None)) == 0,
    decreases n,
{
    if n > 0 {
        lemma_filled_count_none((n - 1) as nat);
        assert(Seq::new(n, |i: int| None::<Seq<u8>>).drop_last() =~= Seq::new(
            (n - 1) as nat,
            |i: int| None::<Seq<u8>>,
        ));
    }
}

impl Part {
    spec fn wf(self) -> bool {
        &&& self.n == filled_count(self@.frags)
    }

    /// A message of which nothing has come yet.
    fn fresh(f: &MediaFragment, now: u64) -> (p: Part)
        requires
            f.frag_total >= 2,
        ensures
            p.wf(),
            p@ == Partial::fresh(f@, now),
    {
        let total: usize = f.frag_total as usize;
        let mut frags: Vec<Option<Vec<u8>>> = Vec::new();
        let mut i: usize = 0;
        while i < total
            invariant
                i <= total,
                frags@.len() == i,
                forall|j: int| 0 <= j < i ==> frags@[j] is None,
            decreases total - i,
        {
            frags.push(None);
            i += 1;
        }
        let p = Part {
            seq: f.seq,
            frags,
            n: 0,
            pts: f.pts,
            revision: f.revision,
            flags: f.flags as u32,
            touched: now,
        };
        proof {
            lemma_filled_count_none(f@.total());
            assert(p@.frags =~= Partial::fresh(f@, now).frags);
        }
        p
    }

    /// Records a datagram that belongs to this message.
    fn record(&mut self, f: &MediaFragment, now: u64)
        requires
            old(self).wf(),
            f.frag < old(self)@.frags.len(),
        ensures
            final(self).wf(),
            final(self)@ == old(self)@.record(f@, now),
    {
        let at: usize = f.frag as usize;
        let ghost before = self@;
        proof {
            assert(before.frags[at as int] == bytes_view(self.frags@[at as int]));
            lemma_filled_count_full(before.frags);
        }
        self.touched = now;
        let free = match &self.frags[at] {
            Some(_) => false,
            None => true,
        };
        if free {
            proof {
                assert(before.frags[at as int] is None);
                lemma_filled_count_update(before.frags, at as int, f.payload@);
                assert(!all_filled(before.frags));
            }
            if f.frag == 0 {
                self.pts = f.pts;
                self.revision = f.revision;
                self.flags = f.flags as u32;
            }
            let data = copy_bytes(f.payload);
            assert(self.n < self.frags.len());
            self.frags.set(at, Some(data));
            self.n = self.n + 1;
            assert(self@.frags =~= before.frags.update(at as int, Some(f.payload@)));
        } else {
            assert(self@.frags =~= before.frags);
        }
        assert(self@ =~= before.record(f@, now));
    }

    fn is_complete(&self) -> (r: bool)
        requires
            self.wf(),
        ensures
            r == all_filled(self@.frags),
    {
        proof {
            lemma_filled_count_full(self@.frags);
            assert(self@.frags.len() == self.frags@.len());
        }
        self.n == self.frags.len()
    }

    fn into_media(self) -> (m: AssembledMedia)
        ensures
            m@ == self@.media(),
    {
        let mut data: Vec<u8> = Vec::new();
        let mut i: usize = 0;
        let ghost fr = self@.frags;
        while i < self.frags.len()
            invariant
                i <= self.frags@.len(),
                fr == self@.frags,
                fr.len() == self.frags@.len(),
                data@ == joined(fr.take(i as int)),
            decreases self.frags@.len() - i,
        {
            proof {
                assert(fr.take(i + 1).drop_last() =~= fr.take(i as int));
                assert(fr[i as int] == bytes_view(self.frags@[i as int]));
            }
            match &self.frags[i] {
                Some(b) => push_bytes(&mut data, b.as_slice()),
                None => {
                    assert(joined(fr.take(i + 1)) =~= joined(fr.take(i as int)));
                },
            }
            i += 1;
        }
        assert(fr.take(i as int) =~= fr);
        AssembledMedia { pts: self.pts, revision: self.revision, flags: self.flags, data }
    }
}

/// Puts media messages together from their datagrams, one instance for each stream.
///
/// The stream has one producer that sends in order: datagrams of messages that are over
/// are dropped, and so is, after a while, a message that lost a datagram.
pub struct MediaReassembler {
    last_seq: u32,
    parts: HashMap<u32, Part>,
}

impl View for MediaReassembler {
    type V = Assembly;

    closed spec fn view(&self) -> Assembly {
        Assembly { last_seq: self.last_seq, parts: self.parts@.map_values(|p: Part| p@) }
    }
}

impl Default for MediaReassembler {
    fn default() -> (r: Self)
        ensures
            r.wf(),
            r@ == Assembly::empty(),
    {
        MediaReassembler::new()
    }
}

impl MediaReassembler {
    pub closed spec fn wf(&self) -> bool {
        forall|id: u32| #[trigger] self.parts@.contains_key(id) ==> self.parts@[id].wf()
    }

    pub fn new() -> (r: Self)
        ensures
            r.wf(),
            r@ == Assembly::empty(),
    {
        let r = MediaReassembler { last_seq: 0, parts: HashMap::new() };
        assert(r@.parts =~= Map::empty());
        r
    }

    /// How many messages are under way.
    pub fn pending(&self) -> (r: usize)
        ensures
            r == self@.parts.len(),
    {
        broadcast use vstd::std_specs::hash::group_hash_axioms;

        assert(self@.parts.dom() =~= self.parts@.dom());
        self.parts.len()
    }

    /// Whether a datagram has a place in the message under way that it claims to belong
    /// to. One that has none disagrees with the earlier ones on the number of datagrams.
    pub fn fits(&self, frag: &MediaFragment) -> (r: bool)
        requires
            self.wf(),
        ensures
            r == self@.fits(frag@),
    {
        if frag.frag_total == MEDIA_OPEN_TOTAL || frag.frag_total <= 1 || frag.frag
            >= frag.frag_total || frag.seq < self.last_seq {
            return true;
        }
        match self.parts.get(&frag.msg_id) {
            Some(p) => p.seq != frag.seq || (frag.frag as usize) < p.frags.len(),
            None => true,
        }
    }

    /// Takes one datagram, which came at `now` (in nanoseconds on a clock that never goes
    /// back), and returns the message that it completes.
    pub fn push(&mut self, frag: &MediaFragment, now: u64) -> (r: Option<AssembledMedia>)
        requires
            old(self).wf(),
            old(self)@.fits(frag@),
        ensures
            final(self).wf(),
            final(self)@ == old(self)@.push(frag@, now).0,
            media_view(r) == old(self)@.push(frag@, now).1,
    {
        let ghost before = self@;
        let ghost f = frag@;
        if frag.frag_total == MEDIA_OPEN_TOTAL {
            return None;
        }
        let seq: u32 = frag.seq;
        if seq < self.last_seq || (seq == self.last_seq && self.last_seq != 0
            && !self.parts.contains_key(&frag.msg_id)) {
            return None;
        }
        let total: usize = if frag.frag_total == 0 {
            1
        } else {
            frag.frag_total as usize
        };
        if frag.frag as usize >= total {
            return None;
        }
        if total == 1 {
            self.note_emitted(seq);
            self.parts.remove(&frag.msg_id);
            assert(self@.parts =~= before.parts.remove(f.msg_id));
            let data = copy_bytes(frag.payload);
            return Some(
                AssembledMedia {
                    pts: frag.pts,
                    revision: frag.revision,
                    flags: frag.flags as u32,
                    data,
                },
            );
        }
        let mut part = match self.parts.remove(&frag.msg_id) {
            Some(p) => {
                proof {
                    assert(before.parts[f.msg_id] == p@);
                    assert(self@.parts =~= before.parts.remove(f.msg_id));
                }
                let mut p = p;
                if p.seq > seq {
                    p.touched = now;
                    self.parts.insert(frag.msg_id, p);
                    assert(self@.parts =~= before.push(f, now).0.parts);
                    return None;
                }
                if p.seq < seq {
                    if seq == self.last_seq && self.last_seq != 0 {
                        return None;
                    }
                    Part::fresh(frag, now)
                } else {
                    p
                }
            },
            None => {
                assert(self@.parts =~= before.parts.remove(f.msg_id));
                Part::fresh(frag, now)
            },
        };
        let ghost base = part@;
        part.record(frag, now);
        let ghost filled = part@;
        if part.is_complete() {
            self.note_emitted(seq);
            assert(self@.parts =~= before.parts.remove(f.msg_id));
            Some(part.into_media())
        } else {
            self.parts.insert(frag.msg_id, part);
            assert(self@.parts =~= before.parts.insert(f.msg_id, filled));
            None
        }
    }

    /// Drops the messages that no datagram has come for in the last `timeout` nanoseconds.
    pub fn sweep(&mut self, now: u64, timeout: u64)
        requires
            old(self).wf(),
        ensures
            final(self).wf(),
            final(self)@ == old(self)@.sweep(now, timeout),
    {
        let ghost before = self@;
        let mut ids: Vec<u32> = Vec::new();
        let keys = self.parts.keys();
        let ghost all = vstd::std_specs::iter::IteratorSpec::remaining(&keys).unref();
        for id in it: keys
            invariant
                it.seq().unref() == all,
                ids@.len() == it.index(),
                forall|j: int| 0 <= j < ids@.len() ==> #[trigger] ids@[j] == *it.seq()[j],
        {
            ids.push(*id);
        }
        proof {
            assert(ids@ =~= all);
            assert forall|id: u32| #[trigger] before.parts.contains_key(id) implies ids@.skip(
                0,
            ).contains(id) by {
                assert(all.to_set().contains(id));
                assert(ids@.skip(0) =~= ids@);
            }
        }
        let mut i: usize = 0;
        while i < ids.len()
            invariant
                i <= ids@.len(),
                self.wf(),
                self.last_seq == old(self).last_seq,
                before == old(self)@,
                forall|id: u32| #[trigger]
                    self@.parts.contains_key(id) ==> before.parts.contains_key(id) && (
                    Assembly::lively(before.parts[id], now, timeout) || ids@.skip(
                        i as int,
                    ).contains(id)),
                forall|id: u32| #[trigger]
                    before.parts.contains_key(id) && Assembly::lively(
                        before.parts[id],
                        now,
                        timeout,
                    ) ==> self@.parts.contains_key(id),
                forall|id: u32| #[trigger]
                    self@.parts.contains_key(id) ==> self@.parts[id] == before.parts[id],
            decreases ids@.len() - i,
        {
            let id: u32 = ids[i];
            let ghost held = self@.parts;
            proof {
                crate::seqs::lemma_skip_contains(ids@, i as int);
            }
            let lapsed = match self.parts.get(&id) {
                Some(p) => {
                    assert(held[id] == p@);
                    let idle: u64 = if now > p.touched {
                        now - p.touched
                    } else {
                        0
                    };
                    idle >= timeout
                },
                None => false,
            };
            if lapsed {
                self.parts.remove(&id);
                assert(self@.parts =~= held.remove(id));
            }
            i += 1;
        }
        assert(self@.parts =~= before.sweep(now, timeout).parts);
    }

    fn note_emitted(&mut self, seq: u32)
        ensures
            final(self).last_seq == seq,
            final(self).parts == old(self).parts,
    {
        self.last_seq = seq;
    }
}

/// The reassembler and what it returned, once the datagrams `ds` have come at `times`.
pub open spec fn push_all(a: Assembly, ds: Seq<Datagram>, times: Seq<u64>) -> (
    Assembly,
    Seq<Option<Media>>,
)
    decreases ds.len(),
{
    if ds.len() == 0 {
        (a, Seq::empty())
    } else {
        let (b, out) = push_all(a, ds.drop_last(), times);
        let (c, r) = b.push(ds.last(), times[ds.len() - 1]);
        (c, out.push(r))
    }
}

/// The datagrams of `m` in the order that `order` gives.
pub open spec fn sent(m: Outgoing, order: Seq<int>) -> Seq<Datagram> {
    Seq::new(order.len(), |k: int| m.fragment(order[k]))
}

/// Where `order` names each of `0..n` exactly once.
pub open spec fn is_ordering(order: Seq<int>, n: nat) -> bool {
    &&& order.len() == n
    &&& order.no_duplicates()
    &&& forall|k: int| 0 <= k < n ==> 0 <= #[trigger] order[k] < n
    &&& forall|i: int| 0 <= i < n ==> order.contains(i)
}

/// The message `m` of which the datagrams that `seen` names have come.
spec fn partly(m: Outgoing, seen: Seq<int>, p: Partial) -> bool {
    &&& p.seq == m.seq
    &&& p.pts == m.pts
    &&& p.revision == m.revision
    &&& p.flags == m.flags
    &&& p.frags.len() == m.count()
    &&& forall|i: int|
        0 <= i < p.frags.len() ==> #[trigger] p.frags[i] == if seen.contains(i) {
            Some(chunk(m.data, i))
        } else {
            None
        }
}

/// The chunks of a message are its data, end to end.
proof fn lemma_joined_chunks(data: Seq<u8>, frags: Seq<Option<Seq<u8>>>, k: int)
    requires
        frags.len() == fragment_count(data.len()),
        forall|i: int| 0 <= i < frags.len() ==> #[trigger] frags[i] == Some(chunk(data, i)),
        0 <= k <= frags.len(),
    ensures
        joined(frags.take(k)) == data.take(
            if k * MAX_FRAGMENT < data.len() {
                k * MAX_FRAGMENT
            } else {
                data.len() as int
            },
        ),
    decreases k,
{
    if k > 0 {
        lemma_joined_chunks(data, frags, k - 1);
        assert(frags.take(k).drop_last() =~= frags.take(k - 1));
        assert(frags.take(k).last() == Some(chunk(data, k - 1)));
        assert((k - 1) * MAX_FRAGMENT <= data.len());
        assert(joined(frags.take(k)) =~= data.take(
            if k * MAX_FRAGMENT < data.len() {
                k * MAX_FRAGMENT
            } else {
                data.len() as int
            },
        ));
    } else {
        assert(joined(frags.take(k)) =~= data.take(0));
    }
}

proof fn lemma_partly_step(a: Assembly, m: Outgoing, order: Seq<int>, times: Seq<u64>, k: int)
    requires
        2 <= m.count() < MEDIA_OPEN_TOTAL,
        m.flags < 256,
        a.last_seq < m.seq,
        !a.parts.contains_key(m.msg_id),
        is_ordering(order, m.count()),
        times.len() == order.len(),
        0 <= k < order.len(),
    ensures
        ({
            let (b, out) = push_all(a, sent(m, order).take(k), times);
            &&& out == Seq::new(k as nat, |j: int| None::<Media>)
            &&& b.last_seq == a.last_seq
            &&& k == 0 ==> b == a
            &&& k > 0 ==> b.parts.contains_key(m.msg_id) && partly(
                m,
                order.take(k),
                b.parts[m.msg_id],
            ) && b.parts.remove(m.msg_id) == a.parts
        }),
    decreases k,
{
    let ds = sent(m, order);
    if k == 0 {
        assert(push_all(a, ds.take(0), times).1 =~= Seq::new(0, |j: int| None::<Media>));
    } else {
        lemma_partly_step(a, m, order, times, k - 1);
        assert(ds.take(k).drop_last() =~= ds.take(k - 1));
        let (b, out) = push_all(a, ds.take(k - 1), times);
        let f = m.fragment(order[k - 1]);
        assert(ds.take(k).last() == f);
        let now = times[k - 1];
        let flags = m.flags;
        assert(flags as u8 as u32 == flags) by (bit_vector)
            requires
                flags < 256,
        ;
        let base = if k == 1 {
            Partial::fresh(f, now)
        } else {
            b.parts[m.msg_id]
        };
        assert(partly(m, order.take(k - 1), base));
        crate::seqs::lemma_take_contains(order, k - 1);
        crate::seqs::lemma_take_contains(order, k);
        assert(order.take(k - 1 + 1) == order.take(k));
        let p = base.record(f, now);
        assert forall|i: int| 0 <= i < p.frags.len() implies #[trigger] p.frags[i] == if order.take(
            k,
        ).contains(i) {
            Some(chunk(m.data, i))
        } else {
            None
        } by {
            assert(order.take(k).contains(i) <==> i == order[k - 1] || order.take(k - 1).contains(
                i,
            ));
        }
        assert(partly(m, order.take(k), p));
        assert(!all_filled(p.frags)) by {
            assert(p.frags[order[k]] is None);
        }
        let c = b.push(f, now).0;
        assert(c.parts =~= b.parts.insert(m.msg_id, p));
        assert(c.parts.remove(m.msg_id) =~= a.parts);
        assert(push_all(a, ds.take(k), times).1 =~= Seq::new(k as nat, |j: int| None::<Media>));
    }
}

/// The datagrams of a message give the message back, in whatever order they come: nothing
/// is returned before the last of them, which returns the message, and nothing else that
/// is under way is touched. The message is newer than the last one that was put together,
/// its identifier is not in use, and its datagrams can be counted in 16 bits.
pub proof fn law_reassembly(a: Assembly, m: Outgoing, order: Seq<int>, times: Seq<u64>)
    requires
        m.count() < MEDIA_OPEN_TOTAL,
        m.flags < 256,
        a.last_seq < m.seq,
        !a.parts.contains_key(m.msg_id),
        is_ordering(order, m.count()),
        times.len() == order.len(),
    ensures
        ({
            let (b, out) = push_all(a, sent(m, order), times);
            &&& b == Assembly { last_seq: m.seq, parts: a.parts }
            &&& out == Seq::new(
                m.count(),
                |k: int|
                    if k == m.count() - 1 {
                        Some(m.media())
                    } else {
                        None
                    },
            )
        }),
{
    let ds = sent(m, order);
    let n = m.count() as int;
    let flags = m.flags;
    assert(flags as u8 as u32 == flags) by (bit_vector)
        requires
            flags < 256,
    ;
    let f = m.fragment(order[n - 1]);
    let now = times[n - 1];
    if n == 1 {
        assert(order[0] == 0);
        assert(ds.drop_last() =~= Seq::empty());
        assert(push_all(a, ds.drop_last(), times) == (a, Seq::<Option<Media>>::empty()));
        assert(chunk(m.data, 0) =~= m.data);
        assert(f.payload == m.data);
        assert(a.push(f, now).0.parts =~= a.parts);
    } else {
        lemma_partly_step(a, m, order, times, n - 1);
        assert(ds.drop_last() =~= ds.take(n - 1));
        let (b, out) = push_all(a, ds.take(n - 1), times);
        let base = b.parts[m.msg_id];
        let p = base.record(f, now);
        crate::seqs::lemma_take_contains(order, n - 1);
        assert(order.take(n - 1 + 1) =~= order);
        assert(order.take(n) =~= order);
        assert(base.frags[order[n - 1]] is None);
        assert forall|i: int| 0 <= i < p.frags.len() implies #[trigger] p.frags[i] == Some(
            chunk(m.data, i),
        ) by {
            assert(order.take(n).contains(i));
            assert(base.frags[i] == if order.take(n - 1).contains(i) {
                Some(chunk(m.data, i))
            } else {
                None
            });
        }
        assert(all_filled(p.frags));
        lemma_joined_chunks(m.data, p.frags, n);
        assert(p.frags.take(n) =~= p.frags);
        assert(m.data.take(m.data.len() as int) =~= m.data);
        assert(p.media() =~= m.media());
        assert(b.push(f, now).0.parts =~= a.parts);
    }
    assert(push_all(a, ds, times).1 =~= Seq::new(
        m.count(),
        |k: int|
            if k == m.count() - 1 {
                Some(m.media())
            } else {
                None
            },
    ));
}

/// A datagram that completed a message changes nothing when it comes again.
pub proof fn law_repeat_is_dropped(a: Assembly, f: Datagram, now: u64, later: u64)
    requires
        a.push(f, now).1 is Some,
        f.seq != 0,
    ensures
        a.push(f, now).0.push(f, later) == (a.push(f, now).0, None::<Media>),
{
}

/// Messages come out in the order of their sequence numbers, and an older datagram than
/// the last message changes nothing.
pub proof fn law_sequence_never_falls(a: Assembly, f: Datagram, now: u64)
    ensures
        a.push(f, now).0.last_seq >= a.last_seq,
        a.push(f, now).1 is Some ==> a.push(f, now).0.last_seq == f.seq,
        a.push(f, now).1 is None ==> a.push(f, now).0.last_seq == a.last_seq,
        f.seq < a.last_seq ==> a.push(f, now) == (a, None::<Media>) && a.fits(f),
{
}

/// A datagram touches no message under way but its own.
pub proof fn law_other_messages_untouched(a: Assembly, f: Datagram, now: u64, id: u32)
    requires
        id != f.msg_id,
    ensures
        a.push(f, now).0.parts.contains_key(id) == a.parts.contains_key(id),
        a.parts.contains_key(id) ==> a.push(f, now).0.parts[id] == a.parts[id],
{
}

/// Of the first `k` datagrams, one was the `i`-th of the message in question.
pub open spec fn seen(src: Seq<Option<int>>, k: int, i: int) -> bool {
    exists|t: int| 0 <= t < k && #[trigger] src[t] == Some(i)
}

/// Every datagram of a message of `n` is among the first `k`.
pub open spec fn covered(n: nat, src: Seq<Option<int>>, k: int) -> bool {
    forall|i: int| 0 <= i < n ==> #[trigger] seen(src, k, i)
}

/// `src` tells of each of the datagrams `ds` which one of the message `m` it is; `None`
/// stands for one of another message.
pub open spec fn traffic(m: Outgoing, ds: Seq<Datagram>, src: Seq<Option<int>>) -> bool {
    &&& ds.len() == src.len()
    &&& forall|t: int|
        0 <= t < ds.len() ==> match #[trigger] src[t] {
            Some(i) => 0 <= i < m.count() && ds[t] == m.fragment(i),
            None => ds[t].msg_id != m.msg_id,
        }
}

/// As long as `m` is not complete, no message that is as new is completed.
pub open spec fn none_overtakes(
    m: Outgoing,
    ds: Seq<Datagram>,
    src: Seq<Option<int>>,
    out: Seq<Option<Media>>,
) -> bool {
    forall|t: int|
        0 <= t < ds.len() && #[trigger] src[t] is None && out[t] is Some && !covered(
            m.count(),
            src,
            t,
        ) ==> ds[t].seq < m.seq
}

/// What the datagram at place `t` gives, where it is one of `m`.
pub open spec fn given(m: Outgoing, src: Seq<Option<int>>, t: int) -> Option<Media> {
    if covered(m.count(), src, t + 1) && !covered(m.count(), src, t) {
        Some(m.media())
    } else {
        None
    }
}

proof fn lemma_push_all_prefix(a: Assembly, ds: Seq<Datagram>, times: Seq<u64>, k: int)
    requires
        0 <= k <= ds.len(),
    ensures
        push_all(a, ds, times).1.len() == ds.len(),
        push_all(a, ds.take(k), times).1 == push_all(a, ds, times).1.take(k),
    decreases ds.len(),
{
    if k == ds.len() {
        assert(ds.take(k) =~= ds);
        if ds.len() > 0 {
            lemma_push_all_prefix(a, ds.drop_last(), times, ds.len() - 1);
        }
        assert(push_all(a, ds, times).1.take(k) =~= push_all(a, ds, times).1);
    } else {
        let d = ds.drop_last();
        lemma_push_all_prefix(a, d, times, k);
        assert(d.take(k) =~= ds.take(k));
        assert(push_all(a, ds, times).1.take(k) =~= push_all(a, d, times).1.take(k));
    }
}

proof fn lemma_seen_step(src: Seq<Option<int>>, k: int, i: int)
    requires
        0 <= k < src.len(),
    ensures
        seen(src, k + 1, i) <==> seen(src, k, i) || src[k] == Some(i),
{
    if seen(src, k + 1, i) && !seen(src, k, i) {
        let t = choose|t: int| 0 <= t < k + 1 && #[trigger] src[t] == Some(i);
        assert(t == k);
    }
}

/// What is known of `m` after the first `k` datagrams.
spec fn known(m: Outgoing, src: Seq<Option<int>>, k: int, b: Assembly) -> bool {
    if covered(m.count(), src, k) {
        b.last_seq >= m.seq && !b.parts.contains_key(m.msg_id)
    } else {
        &&& b.last_seq < m.seq
        &&& b.parts.contains_key(m.msg_id) ==> {
            let p = b.parts[m.msg_id];
            &&& p.seq == m.seq
            &&& p.pts == m.pts
            &&& p.revision == m.revision
            &&& p.flags == m.flags
            &&& p.frags.len() == m.count()
            &&& forall|i: int|
                0 <= i < p.frags.len() ==> #[trigger] p.frags[i] == if seen(src, k, i) {
                    Some(chunk(m.data, i))
                } else {
                    None
                }
        }
        &&& !b.parts.contains_key(m.msg_id) ==> forall|i: int| !#[trigger] seen(src, k, i)
    }
}

proof fn lemma_known_step(
    m: Outgoing,
    ds: Seq<Datagram>,
    src: Seq<Option<int>>,
    k: int,
    b: Assembly,
    now: u64,
)
    requires
        0 < m.count() < MEDIA_OPEN_TOTAL,
        m.flags < 256,
        m.seq > 0,
        traffic(m, ds, src),
        0 <= k < ds.len(),
        known(m, src, k, b),
        src[k] is None && b.push(ds[k], now).1 is Some && !covered(m.count(), src, k) ==> ds[k].seq
            < m.seq,
    ensures
        known(m, src, k + 1, b.push(ds[k], now).0),
        src[k] is Some ==> b.push(ds[k], now).1 == given(m, src, k),
{
    let f = ds[k];
    let n = m.count();
    let (c, r) = b.push(f, now);
    assert forall|i: int| seen(src, k + 1, i) <==> #[trigger] seen(src, k, i) || src[k] == Some(
        i,
    ) by {
        lemma_seen_step(src, k, i);
    }
    match src[k] {
        None => {
            assert(f.msg_id != m.msg_id);
            law_other_messages_untouched(b, f, now, m.msg_id);
            law_sequence_never_falls(b, f, now);
            assert(forall|i: int| seen(src, k + 1, i) == #[trigger] seen(src, k, i));
            if covered(n, src, k) {
                assert forall|i: int| 0 <= i < n implies #[trigger] seen(src, k + 1, i) by {
                    assert(seen(src, k, i));
                }
            } else {
                let i = choose|i: int| 0 <= i < n && !#[trigger] seen(src, k, i);
                assert(!seen(src, k + 1, i));
                assert forall|i: int| !b.parts.contains_key(m.msg_id) implies !#[trigger] seen(
                    src,
                    k + 1,
                    i,
                ) by {
                    assert(!seen(src, k, i));
                }
                if b.parts.contains_key(m.msg_id) {
                    let p = b.parts[m.msg_id];
                    assert forall|i: int| 0 <= i < p.frags.len() implies #[trigger] p.frags[i]
                        == if seen(src, k + 1, i) {
                        Some(chunk(m.data, i))
                    } else {
                        None
                    } by {
                        assert(seen(src, k + 1, i) == seen(src, k, i));
                    }
                }
            }
        },
        Some(j) => {
            assert(f == m.fragment(j));
            let flags = m.flags;
            assert(flags as u8 as u32 == flags) by (bit_vector)
                requires
                    flags < 256,
            ;
            if covered(n, src, k) {
                assert(b.stale(f));
                assert(covered(n, src, k + 1)) by {
                    assert forall|i: int| 0 <= i < n implies #[trigger] seen(src, k + 1, i) by {
                        assert(seen(src, k, i));
                    }
                }
            } else if n == 1 {
                assert(j == 0);
                assert(chunk(m.data, 0) =~= m.data);
                assert(r == Some(m.media()));
                assert(covered(n, src, k + 1)) by {
                    assert(seen(src, k, 0) || src[k] == Some(0int));
                }
            } else {
                assert(!b.rejects(f));
                let base = if b.parts.contains_key(m.msg_id) {
                    b.parts[m.msg_id]
                } else {
                    Partial::fresh(f, now)
                };
                let p = base.record(f, now);
                assert(b.push(f, now) == b.fill(base, f, now));
                assert forall|i: int| 0 <= i < p.frags.len() implies #[trigger] p.frags[i] == if seen(
                    src,
                    k + 1,
                    i,
                ) {
                    Some(chunk(m.data, i))
                } else {
                    None
                } by {
                    assert(seen(src, k + 1, i) <==> seen(src, k, i) || src[k] == Some(i));
                    assert(base.frags[i] == if seen(src, k, i) {
                        Some(chunk(m.data, i))
                    } else {
                        None
                    });
                }
                if all_filled(p.frags) {
                    assert(covered(n, src, k + 1)) by {
                        assert forall|i: int| 0 <= i < n implies #[trigger] seen(
                            src,
                            k + 1,
                            i,
                        ) by {
                            assert(p.frags[i] is Some);
                        }
                    }
                    lemma_joined_chunks(m.data, p.frags, n as int);
                    assert(p.frags.take(n as int) =~= p.frags);
                    assert(m.data.take(m.data.len() as int) =~= m.data);
                    assert(p.media() =~= m.media());
                } else {
                    let i = choose|i: int| 0 <= i < p.frags.len() && !(#[trigger] p.frags[i] is Some);
                    assert(!seen(src, k + 1, i));
                    assert(c.parts[m.msg_id] == p);
                }
            }
        },
    }
}

/// A message comes out once and whole, however its datagrams come: in any order, any of
/// them any number of times, and mixed with those of other messages. The first datagram
/// with which all have come gives the message; every other one, before it or after it, gives
/// nothing. The message is newer than the last one that was put together, its identifier is
/// its own, its datagrams can be counted in 16 bits, and no newer message overtakes it.
pub proof fn law_message_comes_out_once(
    a: Assembly,
    m: Outgoing,
    ds: Seq<Datagram>,
    src: Seq<Option<int>>,
    times: Seq<u64>,
    t: int,
)
    requires
        m.count() < MEDIA_OPEN_TOTAL,
        m.flags < 256,
        a.last_seq < m.seq,
        !a.parts.contains_key(m.msg_id),
        traffic(m, ds, src),
        none_overtakes(m, ds, src, push_all(a, ds, times).1),
        0 <= t < ds.len(),
        src[t] is Some,
    ensures
        push_all(a, ds, times).1[t] == given(m, src, t),
{
    lemma_known(a, m, ds, src, times, t);
    lemma_push_all_prefix(a, ds, times, t + 1);
    lemma_push_all_prefix(a, ds.take(t + 1), times, t + 1);
    let b = push_all(a, ds.take(t), times).0;
    assert(ds.take(t + 1).drop_last() =~= ds.take(t));
    lemma_push_all_prefix(a, ds, times, t);
    assert(push_all(a, ds.take(t + 1), times).1[t] == b.push(ds[t], times[t]).1);
    lemma_known_step(m, ds, src, t, b, times[t]);
}

proof fn lemma_known(
    a: Assembly,
    m: Outgoing,
    ds: Seq<Datagram>,
    src: Seq<Option<int>>,
    times: Seq<u64>,
    k: int,
)
    requires
        m.count() < MEDIA_OPEN_TOTAL,
        m.flags < 256,
        a.last_seq < m.seq,
        !a.parts.contains_key(m.msg_id),
        traffic(m, ds, src),
        none_overtakes(m, ds, src, push_all(a, ds, times).1),
        0 <= k <= ds.len(),
    ensures
        known(m, src, k, push_all(a, ds.take(k), times).0),
    decreases k,
{
    if k == 0 {
        assert(ds.take(0) =~= Seq::empty());
        assert forall|i: int| !#[trigger] seen(src, 0, i) by {}
        assert(m.count() > 0);
        assert(!seen(src, 0, 0));
    } else {
        lemma_known(a, m, ds, src, times, k - 1);
        let b = push_all(a, ds.take(k - 1), times).0;
        assert(ds.take(k).drop_last() =~= ds.take(k - 1));
        assert(ds.take(k).last() == ds[k - 1]);
        lemma_push_all_prefix(a, ds, times, k);
        lemma_push_all_prefix(a, ds.take(k - 1), times, k - 1);
        let r = b.push(ds[k - 1], times[k - 1]).1;
        assert(push_all(a, ds.take(k), times).1[k - 1] == r);
        assert(push_all(a, ds, times).1[k - 1] == r);
        lemma_known_step(m, ds, src, k - 1, b, times[k - 1]);
    }
}

/// A datagram whose number is not below their count changes nothing.
pub proof fn law_misnumbered_is_ignored(a: Assembly, f: Datagram, now: u64)
    requires
        f.frag >= f.total(),
    ensures
        a.push(f, now) == (a, None::<Media>),
        a.fits(f),
{
}

/// An OPEN datagram changes nothing.
pub proof fn law_open_is_ignored(a: Assembly, f: Datagram, now: u64)
    requires
        f.frag_total == MEDIA_OPEN_TOTAL,
    ensures
        a.push(f, now) == (a, None::<Media>),
        a.fits(f),
{
}

/// A sweep drops exactly the messages of which nothing has come for as long as `timeout`; the
/// others, and what has been put together, stay as they are.
pub proof fn law_sweep_drops_what_is_stuck(a: Assembly, now: u64, timeout: u64, id: u32)
    requires
        a.parts.contains_key(id) ==> a.parts[id].touched <= now,
    ensures
        ({
            let b = a.sweep(now, timeout);
            &&& b.last_seq == a.last_seq
            &&& b.parts.contains_key(id) <==> a.parts.contains_key(id) && now - a.parts[id].touched
                < timeout
            &&& b.parts.contains_key(id) ==> b.parts[id] == a.parts[id]
        }),
{
}

/// A datagram of a message of several pieces that is newer than what has been put together is
/// kept, with the time at which it came, until the message is whole.
pub proof fn law_piece_is_kept_with_its_time(a: Assembly, f: Datagram, now: u64)
    requires
        1 < f.frag_total < 0xFFFF,
        f.frag < f.frag_total,
        f.seq > a.last_seq,
        !a.parts.contains_key(f.msg_id),
    ensures
        ({
            let (b, out) = a.push(f, now);
            &&& out is None
            &&& b.parts.contains_key(f.msg_id)
            &&& b.parts[f.msg_id].touched == now
            &&& b.parts[f.msg_id].seq == f.seq
            &&& b.parts[f.msg_id].frags.len() == f.frag_total
            &&& b.parts[f.msg_id].frags[f.frag as int] == Some(f.payload)
        }),
{
    let p = Partial::fresh(f, now).record(f, now);
    let j: int = if f.frag == 0 {
        1
    } else {
        0
    };
    assert(p.frags[j] is None);
    assert(!all_filled(p.frags));
}

/// A message travels in pieces of at most 1200 bytes, all of which are full but the last, and
/// which together are the message; an empty one travels in one piece.
pub proof fn law_pieces_are_small(data: Seq<u8>, i: int)
    requires
        0 <= i < fragment_count(data.len()),
    ensures
        chunk(data, i).len() <= 1200,
        i < fragment_count(data.len()) - 1 ==> chunk(data, i).len() == 1200,
        data.len() > 0 ==> chunk(data, i).len() > 0,
        data.len() == 0 ==> fragment_count(data.len()) == 1,
        forall|k: int|
            0 <= k < chunk(data, i).len() ==> #[trigger] chunk(data, i)[k] == data[i * 1200 + k],
{
    let n = data.len() as int;
    if n > 0 {
        let c = fragment_count(data.len()) as int;
        assert(c == (n + 1199) / 1200);
        assert(i * 1200 < n);
    }
}

} // verus!
