//! Reliable, ordered delivery of control messages.
//!
//! - Sending: every fragment of a message takes a sequence number of its own and is kept
//!   until it is acknowledged. At most [`WINDOW`] fragments are under way; the others are
//!   held back until there is room. One that is not acknowledged in time is sent again,
//!   each time after a longer wait, until the sender gives up.
//! - Receiving: fragments are kept by sequence number and whole messages are handed out
//!   in order. The acknowledgement is cumulative.
//!
//! Times are nanoseconds on a clock that never goes back.
use super::codec::{chunk, MAX_FRAGMENT};
use super::messages::{Frame, FrameKind, FrameView, Payload, PayloadView, Stream};
use crate::wire::{copy_bytes, push_bytes};
use std::collections::BTreeMap;
use vstd::prelude::*;

verus! {

broadcast use {vstd::std_specs::btree::group_btree_axioms, vstd::laws_cmp::group_laws_cmp};

/// How many fragments may be sent and not acknowledged.
pub const WINDOW: usize = 32;

/// The wait before a fragment is first sent again: 200 ms.
pub const INITIAL_RTO: u64 = 200_000_000;

/// The longest wait before a fragment is sent again: 1600 ms.
pub const MAX_RTO: u64 = 1_600_000_000;

/// How often a fragment is sent again before the sender gives up.
pub const LOSS_LIMIT: u32 = 8;

/// The receiver gives up when it keeps more fragments than this.
pub const MAX_RECV_BUFFER: usize = 4096;

/// `x` as a sequence number, which counts modulo 2^32.
pub open spec fn seq_no(x: int) -> u32 {
    (x % 0x1_0000_0000) as u32
}

/// How far `b` lies after `a` on the ring of sequence numbers.
pub open spec fn seq_distance(a: u32, b: u32) -> int {
    (b - a) % 0x1_0000_0000
}

/// `a` comes at or before `b`: `b` lies at most half the ring after `a`.
pub open spec fn seq_at_or_before(a: u32, b: u32) -> bool {
    seq_distance(a, b) <= 0x8000_0000
}

/// How long to wait for an acknowledgement of a fragment that was sent again `loss`
/// times: the wait doubles each time, up to a limit.
pub open spec fn retransmission_wait(loss: nat) -> int
    decreases loss,
{
    if loss == 0 {
        INITIAL_RTO as int
    } else if 2 * retransmission_wait((loss - 1) as nat) < MAX_RTO {
        2 * retransmission_wait((loss - 1) as nat)
    } else {
        MAX_RTO as int
    }
}

/// The time from `earlier` to `now`; none where the two are out of order.
pub open spec fn elapsed(now: u64, earlier: u64) -> int {
    if now > earlier {
        now - earlier
    } else {
        0
    }
}

/// The time from `earlier` to `now`; none where the two are out of order.
pub fn elapsed_since(now: u64, earlier: u64) -> (r: u64)
    ensures
        r == elapsed(now, earlier),
{
    if now > earlier {
        now - earlier
    } else {
        0
    }
}

/// A fragment that waits for its acknowledgement.
struct OutEntry {
    frame: Frame,
    last_sent: u64,
    loss_count: u32,
}

/// A fragment that waits for its acknowledgement, as the contracts speak of it.
#[verifier::ext_equal]
pub struct Unacked {
    pub frame: FrameView,
    pub last_sent: u64,
    /// How often its wait has run out.
    pub loss_count: u32,
}

impl View for OutEntry {
    type V = Unacked;

    closed spec fn view(&self) -> Unacked {
        Unacked { frame: self.frame@, last_sent: self.last_sent, loss_count: self.loss_count }
    }
}

impl Unacked {
    pub open spec fn due(self, now: u64) -> bool {
        elapsed(now, self.last_sent) >= retransmission_wait(self.loss_count as nat)
    }

    /// The entry once the timeouts of `now` are taken.
    pub open spec fn checked(self, now: u64) -> Unacked {
        if self.due(now) {
            Unacked { last_sent: now, loss_count: (self.loss_count + 1) as u32, ..self }
        } else {
            self
        }
    }

    /// Sent again at `now`.
    pub open spec fn resent(self, now: u64) -> bool {
        self.due(now) && self.loss_count < LOSS_LIMIT
    }

    /// Given up at `now`.
    pub open spec fn lost(self, now: u64) -> bool {
        self.due(now) && self.loss_count >= LOSS_LIMIT
    }
}

/// What a sender holds.
#[verifier::ext_equal]
pub struct Sending {
    pub next_seq: u32,
    /// The fragments that wait for an acknowledgement, oldest first.
    pub window: Seq<Unacked>,
    /// The fragments that wait for room in the window, oldest first.
    pub held: Seq<FrameView>,
    pub stalled: bool,
}

/// How many fragments a control message of `len` bytes travels in: none where it is empty.
pub open spec fn ctrl_count(len: nat) -> nat {
    (len + MAX_FRAGMENT - 1) as nat / MAX_FRAGMENT as nat
}

/// The `i`-th fragment of a control message, of which the first has number `first`.
pub open spec fn ctrl_fragment(first: u32, msg_id: u32, payload: Seq<u8>, i: int) -> FrameView {
    FrameView {
        stream: Some(Stream::Ctrl),
        kind: Some(FrameKind::Data),
        seq: seq_no(first + i),
        msg_id,
        frag: i as u32,
        frag_total: ctrl_count(payload.len()) as u32,
        payload: Some(PayloadView::Data(chunk(payload, i))),
    }
}

/// The fragments of a control message.
pub open spec fn ctrl_fragments(first: u32, msg_id: u32, payload: Seq<u8>) -> Seq<FrameView> {
    Seq::new(ctrl_count(payload.len()), |i: int| ctrl_fragment(first, msg_id, payload, i))
}

/// How many of the oldest fragments an acknowledgement of `ack` releases.
pub open spec fn acked_count(window: Seq<Unacked>, ack: u32) -> nat
    decreases window.len(),
{
    if window.len() > 0 && seq_at_or_before(window[0].frame.seq, ack) {
        1 + acked_count(window.skip(1), ack)
    } else {
        0
    }
}

/// The frames of the entries that are sent again at `now`, oldest first.
pub open spec fn resent_frames(window: Seq<Unacked>, now: u64) -> Seq<FrameView>
    decreases window.len(),
{
    if window.len() == 0 {
        Seq::empty()
    } else {
        let before = resent_frames(window.drop_last(), now);
        if window.last().resent(now) {
            before.push(window.last().frame)
        } else {
            before
        }
    }
}

impl Sending {
    pub open spec fn empty() -> Sending {
        Sending { next_seq: 1, window: Seq::empty(), held: Seq::empty(), stalled: false }
    }

    /// The window and what is held back are the latest fragments, without a gap.
    pub open spec fn contiguous(self) -> bool {
        &&& forall|i: int|
            0 <= i < self.window.len() ==> (#[trigger] self.window[i]).frame.seq == seq_no(
                self.next_seq - self.held.len() - self.window.len() + i,
            )
        &&& forall|i: int|
            0 <= i < self.held.len() ==> (#[trigger] self.held[i]).seq == seq_no(
                self.next_seq - self.held.len() + i,
            )
    }

    /// How many of the held fragments have room in the window.
    pub open spec fn room(self) -> nat {
        if self.window.len() + self.held.len() <= WINDOW {
            self.held.len()
        } else if self.window.len() <= WINDOW {
            (WINDOW - self.window.len()) as nat
        } else {
            0
        }
    }

    /// The held fragments that have room in the window, and may go out.
    pub open spec fn freed(self) -> Seq<FrameView> {
        self.held.take(self.room() as int)
    }

    /// The sender once what has room in the window has gone out.
    pub open spec fn release(self, now: u64) -> Sending {
        Sending {
            window: self.window + self.freed().map_values(
                |f: FrameView| Unacked { frame: f, last_sent: now, loss_count: 0 },
            ),
            held: self.held.skip(self.room() as int),
            ..self
        }
    }

    /// The sender once a message is cut into fragments, of which none has gone out.
    pub open spec fn queue(self, msg_id: u32, payload: Seq<u8>) -> Sending {
        let fs = ctrl_fragments(self.next_seq, msg_id, payload);
        Sending {
            next_seq: seq_no(self.next_seq + fs.len()),
            held: self.held + fs,
            stalled: false,
            ..self
        }
    }

    pub open spec fn send(self, msg_id: u32, payload: Seq<u8>, now: u64) -> Sending {
        self.queue(msg_id, payload).release(now)
    }

    pub open spec fn ack(self, ack: u32) -> Sending {
        let k = acked_count(self.window, ack);
        let rest = self.window.skip(k as int);
        Sending {
            window: rest,
            stalled: self.stalled && (k == 0 || rest.len() == 0),
            ..self
        }
    }

    pub open spec fn expire(self, now: u64) -> Sending {
        Sending {
            window: self.window.map_values(|u: Unacked| u.checked(now)),
            stalled: self.stalled || exists|i: int|
                0 <= i < self.window.len() && (#[trigger] self.window[i]).lost(now),
            ..self
        }
    }

    /// The sender after a look at its clock: what is overdue has been sent again, and what
    /// has room in the window has gone out.
    pub open spec fn round(self, now: u64) -> Sending {
        self.expire(now).release(now)
    }

    /// No fragment has been given up.
    pub open spec fn hopeful(self) -> bool {
        forall|i: int|
            0 <= i < self.window.len() ==> (#[trigger] self.window[i]).loss_count <= LOSS_LIMIT
    }
}

/// The sending side of the control stream.
pub struct ReliableSender {
    next_seq: u32,
    window: Vec<OutEntry>,
    held: Vec<Frame>,
    stalled: bool,
}

impl View for ReliableSender {
    type V = Sending;

    closed spec fn view(&self) -> Sending {
        Sending {
            next_seq: self.next_seq,
            window: self.window@.map_values(|e: OutEntry| e@),
            held: super::messages::frame_views(self.held@),
            stalled: self.stalled,
        }
    }
}

impl Default for ReliableSender {
    fn default() -> (r: Self)
        ensures
            r@ == Sending::empty(),
    {
        ReliableSender::new()
    }
}

impl ReliableSender {
    pub fn new() -> (r: Self)
        ensures
            r@ == Sending::empty(),
    {
        let r = ReliableSender {
            next_seq: 1,
            window: Vec::new(),
            held: Vec::new(),
            stalled: false,
        };
        assert(r@.window =~= Seq::empty());
        assert(r@.held =~= Seq::empty());
        r
    }

    /// Cuts an encoded control message into fragments and returns the frames to send now:
    /// those that have room in the window. The others are held back.
    pub fn send_ctrl_bytes(&mut self, msg_id: u32, payload: &[u8], now: u64) -> (r: Vec<Frame>)
        ensures
            super::messages::frame_views(r@) == old(self)@.queue(msg_id, payload@).freed(),
            final(self)@ == old(self)@.send(msg_id, payload@, now),
    {
        let ghost before = self@;
        let ghost fs = ctrl_fragments(before.next_seq, msg_id, payload@);
        let count: usize = if payload.len() == 0 {
            0
        } else {
            (payload.len() - 1) / MAX_FRAGMENT + 1
        };
        let mut i: usize = 0;
        assert(self@.held =~= before.held + fs.take(0));
        while i < count
            invariant
                i <= count,
                count == ctrl_count(payload@.len()),
                fs == ctrl_fragments(before.next_seq, msg_id, payload@),
                self@.next_seq == seq_no(before.next_seq + i),
                self@.window == before.window,
                self@.held == before.held + fs.take(i as int),
            decreases count - i,
        {
            assert(payload.len() == payload@.len());
            assert(i * MAX_FRAGMENT < payload@.len());
            let start: usize = i * MAX_FRAGMENT;
            let end: usize = if payload.len() - start > MAX_FRAGMENT {
                start + MAX_FRAGMENT
            } else {
                payload.len()
            };
            let seq: u32 = self.next_seq;
            let data = copy_bytes(&payload[start..end]);
            let frame = Frame {
                stream: Some(Stream::Ctrl),
                kind: Some(FrameKind::Data),
                seq,
                msg_id,
                frag: #[verifier::truncate] (i as u32),
                frag_total: #[verifier::truncate] (count as u32),
                payload: Some(Payload::Data(data)),
            };
            assert(frame@ =~= fs[i as int]);
            let ghost h = self@.held;
            let ghost f = frame@;
            self.next_seq = self.next_seq.wrapping_add(1);
            self.held.push(frame);
            proof {
                assert(self@.held =~= h.push(f));
                assert(fs.take(i + 1) =~= fs.take(i as int).push(fs[i as int]));
                assert(self@.held =~= before.held + fs.take(i + 1));
                assert(self@.window =~= before.window);
            }
            i += 1;
        }
        self.stalled = false;
        proof {
            assert(fs.take(i as int) =~= fs);
            assert(self@ =~= before.queue(msg_id, payload@));
        }
        self.release(now)
    }

    /// Lets the held fragments that have room in the window go out.
    fn release(&mut self, now: u64) -> (r: Vec<Frame>)
        ensures
            super::messages::frame_views(r@) == old(self)@.freed(),
            final(self)@ == old(self)@.release(now),
    {
        let ghost before = self@;
        let n: usize = if self.window.len() >= WINDOW {
            0
        } else if self.held.len() <= WINDOW - self.window.len() {
            self.held.len()
        } else {
            WINDOW - self.window.len()
        };
        assert(before.window.len() == self.window@.len());
        assert(before.held.len() == self.held@.len());
        assert(n == before.room());
        let mut out: Vec<Frame> = Vec::new();
        let mut i: usize = 0;
        assert(self@.window =~= before.window + before.held.take(0).map_values(
            |f: FrameView| Unacked { frame: f, last_sent: now, loss_count: 0 },
        ));
        assert(super::messages::frame_views(out@) =~= before.held.take(0));
        while i < n
            invariant
                i <= n,
                n == before.room(),
                n <= before.held.len(),
                self@.next_seq == before.next_seq,
                self@.stalled == before.stalled,
                self@.held == before.held,
                self@.held.len() == self.held@.len(),
                self@.window == before.window + before.held.take(i as int).map_values(
                    |f: FrameView| Unacked { frame: f, last_sent: now, loss_count: 0 },
                ),
                super::messages::frame_views(out@) == before.held.take(i as int),
            decreases n - i,
        {
            let frame = self.held[i].duplicate();
            let kept = frame.duplicate();
            assert(frame@ == before.held[i as int]);
            let ghost w = self@.window;
            let ghost o = super::messages::frame_views(out@);
            let entry = OutEntry { frame: kept, last_sent: now, loss_count: 0 };
            let ghost e = entry@;
            self.window.push(entry);
            out.push(frame);
            proof {
                assert(self@.window =~= w.push(e));
                assert(before.held.take(i + 1) =~= before.held.take(i as int).push(
                    before.held[i as int],
                ));
                assert(self@.window =~= before.window + before.held.take(i + 1).map_values(
                    |f: FrameView| Unacked { frame: f, last_sent: now, loss_count: 0 },
                ));
                assert(super::messages::frame_views(out@) =~= before.held.take(i + 1));
                assert(self@.held =~= before.held);
            }
            i += 1;
        }
        let rest = self.held.split_off(n);
        self.held = rest;
        proof {
            assert(self@.held =~= before.held.skip(n as int));
            assert(self@ =~= before.release(now));
        }
        out
    }

    /// Takes a cumulative acknowledgement: every fragment up to `ack_seq` is released.
    pub fn on_ack(&mut self, ack_seq: u32)
        ensures
            final(self)@ == old(self)@.ack(ack_seq),
    {
        let ghost before = self@;
        let mut k: usize = 0;
        assert(before.window.skip(0) =~= before.window);
        while k < self.window.len() && Self::seq_le(self.window[k].frame.seq, ack_seq)
            invariant
                k <= self.window@.len(),
                self@ == before,
                self@.window.len() == self.window@.len(),
                acked_count(before.window, ack_seq) == k + acked_count(
                    before.window.skip(k as int),
                    ack_seq,
                ),
            decreases self.window@.len() - k,
        {
            proof {
                let rest = before.window.skip(k as int);
                assert(rest[0] == self.window@[k as int]@);
                assert(rest.skip(1) =~= before.window.skip(k + 1));
            }
            k += 1;
        }
        proof {
            let rest = before.window.skip(k as int);
            if rest.len() > 0 {
                assert(rest[0] == self.window@[k as int]@);
            }
            assert(acked_count(rest, ack_seq) == 0);
        }
        let rest = self.window.split_off(k);
        self.window = rest;
        assert(self@.window =~= before.window.skip(k as int));
        assert(self@.held =~= before.held);
        if k > 0 && self.window.len() > 0 {
            self.stalled = false;
        }
    }

    /// The frames to send at `now`: those whose wait has run out and that are sent again,
    /// and then those that have been held back and have room in the window. A fragment
    /// that has been sent again too often stalls the sender.
    pub fn due_timeouts(&mut self, now: u64) -> (r: Vec<Frame>)
        requires
            forall|i: int|
                0 <= i < old(self)@.window.len() ==> (#[trigger] old(self)@.window[i]).loss_count
                    < u32::MAX,
        ensures
            super::messages::frame_views(r@) == resent_frames(old(self)@.window, now)
                + old(self)@.freed(),
            final(self)@ == old(self)@.round(now),
    {
        let ghost before = self@;
        let mut out: Vec<Frame> = Vec::new();
        let mut i: usize = 0;
        while i < self.window.len()
            invariant
                i <= self.window@.len(),
                self.window@.len() == before.window.len(),
                self.next_seq == before.next_seq,
                self@.held == before.held,
                forall|j: int|
                    0 <= j < before.window.len() ==> (#[trigger] before.window[j]).loss_count
                        < u32::MAX,
                forall|j: int|
                    0 <= j < i ==> (#[trigger] self.window@[j])@ == before.window[j].checked(now),
                forall|j: int|
                    i <= j < before.window.len() ==> (#[trigger] self.window@[j])@
                        == before.window[j],
                super::messages::frame_views(out@) == resent_frames(
                    before.window.take(i as int),
                    now,
                ),
                self.stalled == (before.stalled || exists|j: int|
                    0 <= j < i && (#[trigger] before.window[j]).lost(now)),
            decreases self.window@.len() - i,
        {
            let ghost u = before.window[i as int];
            let ghost was = self.stalled;
            proof {
                assert(self.window@[i as int]@ == u);
                assert(before.window.take(i + 1).drop_last() =~= before.window.take(i as int));
                assert(before.window.take(i + 1).last() == u);
            }
            let loss: u32 = self.window[i].loss_count;
            let rto: u64 = Self::rto_for(loss);
            if elapsed_since(now, self.window[i].last_sent) >= rto {
                let frame = self.window[i].frame.duplicate();
                let again = frame.duplicate();
                self.window.set(i, OutEntry { frame, last_sent: now, loss_count: loss + 1 });
                assert(self.window@[i as int]@ =~= u.checked(now));
                if loss + 1 > LOSS_LIMIT {
                    self.stalled = true;
                    assert(before.window[i as int].lost(now));
                } else {
                    let ghost o = out@;
                    out.push(again);
                    assert(super::messages::frame_views(out@)
                        =~= super::messages::frame_views(o).push(u.frame));
                }
            }
            i += 1;
        }
        proof {
            assert(before.window.take(i as int) =~= before.window);
            assert(self@.window =~= before.expire(now).window);
            assert(self@ =~= before.expire(now));
        }
        let mut freed = self.release(now);
        let ghost o = super::messages::frame_views(out@);
        let ghost f = super::messages::frame_views(freed@);
        out.append(&mut freed);
        assert(super::messages::frame_views(out@) =~= o + f);
        out
    }

    /// Whether the sender has given up.
    pub fn is_stalled(&self) -> (r: bool)
        ensures
            r == self@.stalled,
    {
        self.stalled
    }

    /// How many fragments wait for an acknowledgement.
    pub fn pending(&self) -> (r: usize)
        ensures
            r == self@.window.len(),
    {
        self.window.len()
    }

    /// How many fragments are held back.
    pub fn held_back(&self) -> (r: usize)
        ensures
            r == self@.held.len(),
    {
        self.held.len()
    }

    fn rto_for(loss: u32) -> (r: u64)
        ensures
            r == retransmission_wait(loss as nat),
    {
        let mut rto: u64 = INITIAL_RTO;
        let steps: u32 = if loss < 4 {
            loss
        } else {
            4
        };
        proof {
            reveal_with_fuel(retransmission_wait, 5);
            lemma_wait_is_capped(loss as nat);
        }
        let mut i: u32 = 0;
        while i < steps
            invariant
                i <= steps <= 4,
                rto == (if i == 0 {
                    INITIAL_RTO as int
                } else if i == 1 {
                    2 * INITIAL_RTO
                } else if i == 2 {
                    4 * INITIAL_RTO
                } else if i == 3 {
                    8 * INITIAL_RTO
                } else {
                    16 * INITIAL_RTO
                }),
            decreases steps - i,
        {
            rto = rto * 2;
            i += 1;
        }
        if rto < MAX_RTO {
            rto
        } else {
            MAX_RTO
        }
    }

    /// `a` comes at or before `b` on the ring of sequence numbers.
    fn seq_le(a: u32, b: u32) -> (r: bool)
        ensures
            r == seq_at_or_before(a, b),
    {
        if a == b {
            return true;
        }
        let diff: u32 = a.wrapping_sub(b);
        diff >= 0x8000_0000
    }
}

proof fn lemma_wait_is_capped(loss: nat)
    ensures
        loss >= 3 ==> retransmission_wait(loss) == MAX_RTO,
    decreases loss,
{
    reveal_with_fuel(retransmission_wait, 5);
    if loss > 3 {
        lemma_wait_is_capped((loss - 1) as nat);
    }
}

/// A fragment that waits for the rest of its message.
struct RecvFragment {
    msg_id: u32,
    frag: u32,
    total: u32,
    data: Vec<u8>,
}

/// A fragment that waits for the rest of its message, as the contracts speak of it.
#[verifier::ext_equal]
pub struct Kept {
    pub msg_id: u32,
    pub frag: u32,
    /// How many fragments its message has.
    pub total: u32,
    pub data: Seq<u8>,
}

impl View for RecvFragment {
    type V = Kept;

    closed spec fn view(&self) -> Kept {
        Kept { msg_id: self.msg_id, frag: self.frag, total: self.total, data: self.data@ }
    }
}

/// A whole message lies in `buf` from number `next` on: its fragments, in order.
pub open spec fn whole_at(buf: Map<u32, Kept>, next: u32) -> bool {
    &&& buf.contains_key(next)
    &&& buf[next].frag == 0
    &&& buf[next].total > 0
    &&& forall|i: int|
        0 <= i < buf[next].total ==> #[trigger] buf.contains_key(seq_no(next + i)) && buf[seq_no(
            next + i,
        )].msg_id == buf[next].msg_id && buf[seq_no(next + i)].frag == i
}

/// The data of the `k` fragments from number `next` on, end to end.
pub open spec fn run_data(buf: Map<u32, Kept>, next: u32, k: nat) -> Seq<u8>
    decreases k,
{
    if k == 0 {
        Seq::empty()
    } else {
        run_data(buf, next, (k - 1) as nat) + buf[seq_no(next + k - 1)].data
    }
}

/// The `k` numbers from `next` on.
pub open spec fn run_keys(next: u32, k: nat) -> Set<u32> {
    Set::new(|s: u32| seq_distance(next, s) < k)
}

/// Taking a message out leaves less in the buffer.
pub proof fn lemma_run_shrinks(buf: Map<u32, Kept>, next: u32, k: nat)
    requires
        buf.dom().finite(),
        buf.contains_key(next),
        k > 0,
    ensures
        buf.remove_keys(run_keys(next, k)).dom().finite(),
        buf.remove_keys(run_keys(next, k)).dom().len() < buf.dom().len(),
{
    let rest = buf.remove_keys(run_keys(next, k)).dom();
    assert(run_keys(next, k).contains(next));
    assert(rest.subset_of(buf.dom().remove(next)));
    vstd::set_lib::lemma_len_subset(rest, buf.dom().remove(next));
}

/// Takes whole messages out of `buf` from number `next` on, as long as there are any:
/// the number that comes then, what is left, and the messages.
pub open spec fn drained(next: u32, buf: Map<u32, Kept>) -> (u32, Map<u32, Kept>, Seq<Seq<u8>>)
    decreases buf.dom().len(),
    when buf.dom().finite()
{
    if whole_at(buf, next) {
        let k = buf[next].total as nat;
        proof {
            lemma_run_shrinks(buf, next, k);
        }
        let (n, b, out) = drained(seq_no(next + k), buf.remove_keys(run_keys(next, k)));
        (n, b, seq![run_data(buf, next, k)] + out)
    } else {
        (next, buf, Seq::empty())
    }
}

/// What a receiver holds.
#[verifier::ext_equal]
pub struct Receiving {
    /// The number of the first fragment that has not been handed out.
    pub next_seq: u32,
    /// The fragments that wait, by number.
    pub buf: Map<u32, Kept>,
    pub dead: bool,
}

/// How many fragments the message of a data frame has.
pub open spec fn frame_total(f: FrameView) -> u32 {
    if f.frag_total == 0 {
        1
    } else {
        f.frag_total
    }
}

impl Receiving {
    pub open spec fn empty() -> Receiving {
        Receiving { next_seq: 1, buf: Map::empty(), dead: false }
    }

    /// Where the frame is a fragment that the receiver keeps.
    pub open spec fn keeps(self, f: FrameView) -> bool {
        &&& !self.dead
        &&& f.payload matches Some(PayloadView::Data(_))
        &&& f.seq >= self.next_seq
        &&& f.frag < frame_total(f)
    }

    /// What is kept of a data frame.
    pub open spec fn kept(f: FrameView) -> Kept {
        Kept {
            msg_id: f.msg_id,
            frag: f.frag,
            total: frame_total(f),
            data: f.payload->Some_0->Data_0,
        }
    }

    /// What a frame does to the receiver, and the messages that it hands out.
    pub open spec fn receive(self, f: FrameView) -> (Receiving, Seq<Seq<u8>>) {
        if self.keeps(f) {
            let (n, b, out) = drained(self.next_seq, self.buf.insert(f.seq, Self::kept(f)));
            (Receiving { next_seq: n, buf: b, dead: b.dom().len() > MAX_RECV_BUFFER }, out)
        } else {
            (self, Seq::empty())
        }
    }

    /// The number that a cumulative acknowledgement carries.
    pub open spec fn ack(self) -> u32 {
        seq_no(self.next_seq - 1)
    }
}

/// A message that was taken out of the buffer.
struct Run {
    data: Vec<u8>,
    frag_count: u32,
}

/// The receiving side of the control stream.
pub struct ReliableReceiver {
    next_seq: u32,
    buf: BTreeMap<u32, RecvFragment>,
    dead: bool,
}

impl View for ReliableReceiver {
    type V = Receiving;

    closed spec fn view(&self) -> Receiving {
        Receiving {
            next_seq: self.next_seq,
            buf: self.buf@.map_values(|f: RecvFragment| f@),
            dead: self.dead,
        }
    }
}

impl Default for ReliableReceiver {
    fn default() -> (r: Self)
        ensures
            r@ == Receiving::empty(),
    {
        ReliableReceiver::new()
    }
}

/// The messages that a list of byte vectors holds.
pub open spec fn byte_views(v: Seq<Vec<u8>>) -> Seq<Seq<u8>> {
    v.map_values(|b: Vec<u8>| b@)
}

impl ReliableReceiver {
    pub fn new() -> (r: Self)
        ensures
            r@ == Receiving::empty(),
    {
        let r = ReliableReceiver { next_seq: 1, buf: BTreeMap::new(), dead: false };
        assert(r@.buf =~= Map::empty());
        r
    }

    /// Takes one data frame and returns the encoded control messages that are whole now,
    /// in order: mostly none or one, several where a gap was closed.
    pub fn on_frame(&mut self, frame: &Frame) -> (r: Vec<Vec<u8>>)
        ensures
            final(self)@ == old(self)@.receive(frame@).0,
            byte_views(r@) == old(self)@.receive(frame@).1,
    {
        let ghost before = self@;
        let mut delivered: Vec<Vec<u8>> = Vec::new();
        assert(byte_views(delivered@) =~= Seq::empty());
        if self.dead {
            return delivered;
        }
        let data = match &frame.payload {
            Some(Payload::Data(d)) => copy_bytes(d.as_slice()),
            _ => {
                return delivered;
            },
        };
        if frame.seq < self.next_seq {
            return delivered;
        }
        let total: u32 = if frame.frag_total == 0 {
            1
        } else {
            frame.frag_total
        };
        if frame.frag >= total {
            return delivered;
        }
        self.buf.insert(
            frame.seq,
            RecvFragment { msg_id: frame.msg_id, frag: frame.frag, total, data },
        );
        let ghost filled = before.buf.insert(frame@.seq, Receiving::kept(frame@));
        let ghost want = drained(before.next_seq, filled);
        proof {
            assert(self@.buf =~= filled);
            self.lemma_dom();
            assert(Seq::<Seq<u8>>::empty() + want.2 =~= want.2);
        }
        loop
            invariant
                !self.dead,
                ({
                    let (n, b, out) = drained(self.next_seq, self@.buf);
                    want == (n, b, byte_views(delivered@) + out)
                }),
            ensures
                !whole_at(self@.buf, self.next_seq),
            decreases self.buf@.dom().len(),
        {
            proof {
                self.lemma_dom();
            }
            let ghost state = self@;
            match self.collect_run() {
                Some(run) => {
                    let ghost d = delivered@;
                    let ghost rest = drained(
                        seq_no(state.next_seq + run.frag_count),
                        state.buf.remove_keys(run_keys(state.next_seq, run.frag_count as nat)),
                    );
                    self.next_seq = self.next_seq.wrapping_add(run.frag_count);
                    proof {
                        lemma_run_shrinks(state.buf, state.next_seq, run.frag_count as nat);
                        self.lemma_dom();
                        assert(self@.next_seq == seq_no(state.next_seq + run.frag_count));
                    }
                    delivered.push(run.data);
                    proof {
                        assert(byte_views(delivered@) =~= byte_views(d).push(run.data@));
                        assert(byte_views(delivered@) + rest.2 =~= byte_views(d) + (
                        seq![run.data@] + rest.2));
                    }
                },
                None => {
                    break;
                },
            }
        }
        proof {
            self.lemma_dom();
            assert(byte_views(delivered@) + Seq::<Seq<u8>>::empty() =~= byte_views(delivered@));
        }
        if self.buf.len() > MAX_RECV_BUFFER {
            self.dead = true;
        }
        delivered
    }

    proof fn lemma_dom(&self)
        ensures
            self@.buf.dom() == self.buf@.dom(),
            self@.buf.dom().finite(),
            self.buf@.dom().finite(),
    {
        assert(self@.buf.dom() =~= self.buf@.dom());
    }

    /// Takes the whole message that lies in the buffer from the next number on, if there
    /// is one.
    fn collect_run(&mut self) -> (r: Option<Run>)
        ensures
            final(self).next_seq == old(self).next_seq,
            final(self).dead == old(self).dead,
            match r {
                Some(run) => {
                    &&& whole_at(old(self)@.buf, old(self)@.next_seq)
                    &&& run.frag_count == old(self)@.buf[old(self)@.next_seq].total
                    &&& run.data@ == run_data(
                        old(self)@.buf,
                        old(self)@.next_seq,
                        run.frag_count as nat,
                    )
                    &&& final(self)@.buf == old(self)@.buf.remove_keys(
                        run_keys(old(self)@.next_seq, run.frag_count as nat),
                    )
                },
                None => {
                    &&& !whole_at(old(self)@.buf, old(self)@.next_seq)
                    &&& final(self)@ == old(self)@
                },
            },
    {
        let ghost before = self@;
        let start: u32 = self.next_seq;
        let (msg_id, total): (u32, u32) = match self.buf.get(&start) {
            Some(first) => {
                assert(before.buf[start] == first@);
                if first.frag != 0 || first.total == 0 {
                    return None;
                }
                (first.msg_id, first.total)
            },
            None => {
                return None;
            },
        };
        let mut out: Vec<u8> = Vec::new();
        let mut i: u32 = 0;
        while i < total
            invariant
                i <= total,
                self@ == before,
                start == before.next_seq,
                before.buf.contains_key(start),
                before.buf[start].msg_id == msg_id,
                before.buf[start].total == total,
                forall|j: int|
                    0 <= j < i ==> #[trigger] before.buf.contains_key(seq_no(start + j))
                        && before.buf[seq_no(start + j)].msg_id == msg_id && before.buf[seq_no(
                        start + j,
                    )].frag == j,
                out@ == run_data(before.buf, start, i as nat),
            decreases total - i,
        {
            let at: u32 = start.wrapping_add(i);
            assert(at == seq_no(start + i));
            match self.buf.get(&at) {
                Some(f) => {
                    assert(before.buf[at] == f@);
                    if f.msg_id != msg_id || f.frag != i {
                        assert(!whole_at(before.buf, start)) by {
                            assert(before.buf.contains_key(seq_no(start + i)));
                        }
                        return None;
                    }
                    push_bytes(&mut out, f.data.as_slice());
                },
                None => {
                    assert(!whole_at(before.buf, start)) by {
                        assert(!before.buf.contains_key(seq_no(start + i)));
                    }
                    return None;
                },
            }
            i += 1;
        }
        assert(whole_at(before.buf, start));
        let mut k: u32 = 0;
        assert(before.buf.remove_keys(run_keys(start, 0)) =~= before.buf);
        while k < total
            invariant
                k <= total,
                self.next_seq == start,
                self.dead == before.dead,
                self@.buf == before.buf.remove_keys(run_keys(start, k as nat)),
            decreases total - k,
        {
            let at: u32 = start.wrapping_add(k);
            let ghost held = self@.buf;
            self.buf.remove(&at);
            proof {
                assert(self@.buf =~= held.remove(at));
                assert forall|s: u32| #[trigger]
                    run_keys(start, (k + 1) as nat).contains(s) <==> (s == at || run_keys(
                        start,
                        k as nat,
                    ).contains(s)) by {
                    assert(at == seq_no(start + k));
                }
                assert(self@.buf =~= before.buf.remove_keys(run_keys(start, (k + 1) as nat)));
            }
            k += 1;
        }
        Some(Run { data: out, frag_count: total })
    }

    /// The number up to which every fragment has been handed out.
    pub fn ack_seq(&self) -> (r: u32)
        ensures
            r == self@.ack(),
    {
        self.next_seq.wrapping_sub(1)
    }

    /// Whether the receiver has given up.
    pub fn is_dead(&self) -> (r: bool)
        ensures
            r == self@.dead,
    {
        self.dead
    }
}

/// The time between two readings of a clock is their difference, and none where they are out of
/// order.
pub proof fn law_elapsed_is_the_difference(now: u64, earlier: u64)
    ensures
        now >= earlier ==> elapsed(now, earlier) == now - earlier,
        now < earlier ==> elapsed(now, earlier) == 0,
{
}

} // verus!
