//! What the two sides of the control stream promise together.
use super::codec::{chunk, MAX_FRAGMENT};
use super::messages::{FrameView, PayloadView};
use super::reliable::{
    acked_count, ctrl_count, ctrl_fragment, ctrl_fragments, drained, resent_frames, run_data,
    run_keys, seq_no, whole_at, Kept, Receiving, Sending, Unacked, MAX_RECV_BUFFER, WINDOW,
};
use vstd::prelude::*;

verus! {

/// How many fragments the first `j` messages travel in.
pub open spec fn offset(msgs: Seq<Seq<u8>>, j: int) -> nat
    decreases j,
{
    if j <= 0 {
        0
    } else {
        offset(msgs, j - 1) + ctrl_count(msgs[j - 1].len())
    }
}

/// The frames of the first `j` messages, sent one after the other, the first of them with
/// number `first`.
pub open spec fn frames_of(first: u32, ids: Seq<u32>, msgs: Seq<Seq<u8>>, j: int) -> Seq<FrameView>
    decreases j,
{
    if j <= 0 {
        Seq::empty()
    } else {
        frames_of(first, ids, msgs, j - 1) + ctrl_fragments(
            seq_no(first + offset(msgs, j - 1)),
            ids[j - 1],
            msgs[j - 1],
        )
    }
}

/// The receiver and all that it has handed out, once the frames `fs` have come.
pub open spec fn receive_all(r: Receiving, fs: Seq<FrameView>) -> (Receiving, Seq<Seq<u8>>)
    decreases fs.len(),
{
    if fs.len() == 0 {
        (r, Seq::empty())
    } else {
        let (a, out) = receive_all(r, fs.drop_last());
        let (b, more) = a.receive(fs.last());
        (b, out + more)
    }
}

/// The frames that come, by their places in the stream.
pub open spec fn arrivals(frames: Seq<FrameView>, order: Seq<int>) -> Seq<FrameView> {
    Seq::new(order.len(), |t: int| frames[order[t]])
}

/// Every frame of the first `k` messages is among those that came.
pub open spec fn all_came(msgs: Seq<Seq<u8>>, order: Seq<int>, k: int) -> bool {
    forall|g: int| 0 <= g < offset(msgs, k) ==> #[trigger] order.contains(g)
}

/// The stream has no empty message, and its numbers do not wrap.
pub open spec fn deliverable(first: u32, ids: Seq<u32>, msgs: Seq<Seq<u8>>) -> bool {
    &&& ids.len() == msgs.len()
    &&& forall|j: int| 0 <= j < msgs.len() ==> (#[trigger] msgs[j]).len() > 0
    &&& first + offset(msgs, msgs.len() as int) < 0x1_0000_0000
}

proof fn lemma_offset_mono(msgs: Seq<Seq<u8>>, i: int, j: int)
    requires
        0 <= i <= j <= msgs.len(),
    ensures
        offset(msgs, i) <= offset(msgs, j),
    decreases j,
{
    if i < j {
        lemma_offset_mono(msgs, i, j - 1);
    }
}

proof fn lemma_frames_of(first: u32, ids: Seq<u32>, msgs: Seq<Seq<u8>>, j: int)
    requires
        0 <= j <= msgs.len(),
    ensures
        frames_of(first, ids, msgs, j).len() == offset(msgs, j),
    decreases j,
{
    if j > 0 {
        lemma_frames_of(first, ids, msgs, j - 1);
    }
}

/// The frames of message `k` stand together in the stream.
proof fn lemma_frame_at(first: u32, ids: Seq<u32>, msgs: Seq<Seq<u8>>, n: int, k: int, i: int)
    requires
        0 <= k < n <= msgs.len(),
        0 <= i < ctrl_count(msgs[k].len()),
    ensures
        offset(msgs, k) + i < offset(msgs, n),
        frames_of(first, ids, msgs, n)[offset(msgs, k) + i] == ctrl_fragment(
            seq_no(first + offset(msgs, k)),
            ids[k],
            msgs[k],
            i,
        ),
    decreases n,
{
    lemma_frames_of(first, ids, msgs, n - 1);
    lemma_offset_mono(msgs, k + 1, n);
    if k < n - 1 {
        lemma_frame_at(first, ids, msgs, n - 1, k, i);
    }
}

/// Each place of the stream belongs to a message.
proof fn lemma_owner(msgs: Seq<Seq<u8>>, n: int, g: int) -> (k: int)
    requires
        0 <= n <= msgs.len(),
        0 <= g < offset(msgs, n),
    ensures
        0 <= k < n,
        offset(msgs, k) <= g < offset(msgs, k) + ctrl_count(msgs[k].len()),
    decreases n,
{
    if g >= offset(msgs, n - 1) {
        n - 1
    } else {
        lemma_owner(msgs, n - 1, g)
    }
}

/// The frame at place `g` of the stream has number `first + g`.
proof fn lemma_frame_seq(first: u32, ids: Seq<u32>, msgs: Seq<Seq<u8>>, g: int)
    requires
        deliverable(first, ids, msgs),
        0 <= g < offset(msgs, msgs.len() as int),
    ensures
        ({
            let f = frames_of(first, ids, msgs, msgs.len() as int)[g];
            &&& f.seq == first + g
            &&& f.payload matches Some(PayloadView::Data(_))
            &&& f.frag < super::reliable::frame_total(f)
        }),
{
    let n = msgs.len() as int;
    let k = lemma_owner(msgs, n, g);
    let i = g - offset(msgs, k);
    lemma_frame_at(first, ids, msgs, n, k, i);
    lemma_offset_mono(msgs, k + 1, n);
    assert(ctrl_count(msgs[k].len()) <= offset(msgs, n));
}

/// What waits in the buffer: what has come of the stream from message `k` on.
#[verifier::opaque]
spec fn waiting(
    first: u32,
    ids: Seq<u32>,
    msgs: Seq<Seq<u8>>,
    order: Seq<int>,
    k: int,
    buf: Map<u32, Kept>,
) -> bool {
    let frames = frames_of(first, ids, msgs, msgs.len() as int);
    &&& buf.dom().finite()
    &&& forall|s: u32|
        #![trigger buf.contains_key(s)]
        buf.contains_key(s) <==> offset(msgs, k) <= s - first < frames.len() && order.contains(
            s - first,
        )
    &&& forall|s: u32| #[trigger]
        buf.contains_key(s) ==> buf[s] == Receiving::kept(frames[s - first])
}

proof fn lemma_waiting_has(
    first: u32,
    ids: Seq<u32>,
    msgs: Seq<Seq<u8>>,
    order: Seq<int>,
    k: int,
    buf: Map<u32, Kept>,
    g: int,
)
    requires
        deliverable(first, ids, msgs),
        waiting(first, ids, msgs, order, k, buf),
        order.contains(g),
        offset(msgs, k) <= g < offset(msgs, msgs.len() as int),
    ensures
        buf.contains_key(seq_no(first + g)),
        buf[seq_no(first + g)] == Receiving::kept(
            frames_of(first, ids, msgs, msgs.len() as int)[g],
        ),
{
    reveal(waiting);
    lemma_frames_of(first, ids, msgs, msgs.len() as int);
    let s = seq_no(first + g);
    assert(s == first + g);
    assert(buf.contains_key(s));
}

proof fn lemma_waiting_only(
    first: u32,
    ids: Seq<u32>,
    msgs: Seq<Seq<u8>>,
    order: Seq<int>,
    k: int,
    buf: Map<u32, Kept>,
    s: u32,
)
    requires
        waiting(first, ids, msgs, order, k, buf),
        buf.contains_key(s),
    ensures
        offset(msgs, k) <= s - first < offset(msgs, msgs.len() as int),
        order.contains(s - first),
        buf[s] == Receiving::kept(frames_of(first, ids, msgs, msgs.len() as int)[s - first]),
{
    reveal(waiting);
    lemma_frames_of(first, ids, msgs, msgs.len() as int);
}

/// Once message `k` is taken out, what waits is what has come from the next one on.
proof fn lemma_waiting_next(
    first: u32,
    ids: Seq<u32>,
    msgs: Seq<Seq<u8>>,
    order: Seq<int>,
    k: int,
    buf: Map<u32, Kept>,
)
    requires
        deliverable(first, ids, msgs),
        0 <= k < msgs.len(),
        waiting(first, ids, msgs, order, k, buf),
    ensures
        waiting(
            first,
            ids,
            msgs,
            order,
            k + 1,
            buf.remove_keys(
                run_keys(seq_no(first + offset(msgs, k)), ctrl_count(msgs[k].len())),
            ),
        ),
{
    let n = msgs.len() as int;
    let at = seq_no(first + offset(msgs, k));
    let c = ctrl_count(msgs[k].len());
    let rest = buf.remove_keys(run_keys(at, c));
    lemma_offset_mono(msgs, k, n);
    lemma_offset_mono(msgs, k + 1, n);
    assert(at == first + offset(msgs, k));
    assert(offset(msgs, k + 1) == offset(msgs, k) + c);
    lemma_frames_of(first, ids, msgs, n);
    let frames = frames_of(first, ids, msgs, n);
    reveal(waiting);
    vstd::set_lib::lemma_len_subset(rest.dom(), buf.dom());
    assert forall|s: u32|
        #![trigger rest.contains_key(s)]
        rest.contains_key(s) <==> offset(msgs, k + 1) <= s - first < frames.len()
            && order.contains(s - first) by {
        assert(buf.contains_key(s) <==> offset(msgs, k) <= s - first < frames.len()
            && order.contains(s - first));
        if offset(msgs, k) <= s - first < frames.len() {
            assert(run_keys(at, c).contains(s) <==> s - at < c);
        }
    }
    assert forall|s: u32| #[trigger] rest.contains_key(s) implies rest[s] == Receiving::kept(
        frames[s - first],
    ) by {
        assert(buf.contains_key(s));
    }
}

/// How many bytes of `m` its first `i` fragments carry.
spec fn carried(m: Seq<u8>, i: int) -> int {
    if i * MAX_FRAGMENT < m.len() {
        i * MAX_FRAGMENT
    } else {
        m.len() as int
    }
}

proof fn lemma_chunk_extends(m: Seq<u8>, i: int)
    requires
        0 < i <= ctrl_count(m.len()),
    ensures
        m.take(carried(m, i - 1)) + chunk(m, i - 1) == m.take(carried(m, i)),
{
    assert((i - 1) * MAX_FRAGMENT < m.len());
    assert(m.take(carried(m, i - 1)) + chunk(m, i - 1) =~= m.take(carried(m, i)));
}

/// The fragment of message `k` at place `i` lies in the buffer.
proof fn lemma_fragment_waits(
    first: u32,
    ids: Seq<u32>,
    msgs: Seq<Seq<u8>>,
    order: Seq<int>,
    k: int,
    buf: Map<u32, Kept>,
    i: int,
)
    requires
        deliverable(first, ids, msgs),
        0 <= k < msgs.len(),
        waiting(first, ids, msgs, order, k, buf),
        all_came(msgs, order, k + 1),
        0 <= i < ctrl_count(msgs[k].len()),
    ensures
        ({
            let at = seq_no(first + offset(msgs, k));
            let f = ctrl_fragment(at, ids[k], msgs[k], i);
            &&& buf.contains_key(seq_no(at + i))
            &&& buf[seq_no(at + i)] == Receiving::kept(f)
            &&& f.frag == i
            &&& super::reliable::frame_total(f) == ctrl_count(msgs[k].len())
        }),
{
    let n = msgs.len() as int;
    let g = offset(msgs, k) + i;
    lemma_offset_mono(msgs, k, n);
    lemma_offset_mono(msgs, k + 1, n);
    lemma_frame_at(first, ids, msgs, n, k, i);
    assert(order.contains(g));
    lemma_waiting_has(first, ids, msgs, order, k, buf, g);
    assert(seq_no(first + offset(msgs, k)) == first + offset(msgs, k));
}

proof fn lemma_run_of_message(
    first: u32,
    ids: Seq<u32>,
    msgs: Seq<Seq<u8>>,
    order: Seq<int>,
    k: int,
    buf: Map<u32, Kept>,
    i: nat,
)
    requires
        deliverable(first, ids, msgs),
        0 <= k < msgs.len(),
        waiting(first, ids, msgs, order, k, buf),
        all_came(msgs, order, k + 1),
        i <= ctrl_count(msgs[k].len()),
    ensures
        run_data(buf, seq_no(first + offset(msgs, k)), i) == msgs[k].take(
            carried(msgs[k], i as int),
        ),
    decreases i,
{
    let at = seq_no(first + offset(msgs, k));
    let m = msgs[k];
    if i > 0 {
        lemma_run_of_message(first, ids, msgs, order, k, buf, (i - 1) as nat);
        lemma_fragment_waits(first, ids, msgs, order, k, buf, i - 1);
        assert(at + (i - 1) == at + i - 1);
        assert(buf[seq_no(at + i - 1)].data == chunk(m, i - 1));
        lemma_chunk_extends(m, i as int);
    } else {
        assert(run_data(buf, at, 0) =~= m.take(0));
    }
}

/// Draining the buffer hands out every message from `k` on that is whole.
proof fn lemma_drained(
    first: u32,
    ids: Seq<u32>,
    msgs: Seq<Seq<u8>>,
    order: Seq<int>,
    k: int,
    buf: Map<u32, Kept>,
) -> (kk: int)
    requires
        deliverable(first, ids, msgs),
        0 <= k <= msgs.len(),
        waiting(first, ids, msgs, order, k, buf),
        all_came(msgs, order, k),
    ensures
        k <= kk <= msgs.len(),
        all_came(msgs, order, kk),
        kk < msgs.len() ==> !all_came(msgs, order, kk + 1),
        ({
            let (nx, b, out) = drained(seq_no(first + offset(msgs, k)), buf);
            &&& nx == first + offset(msgs, kk)
            &&& out == msgs.subrange(k, kk)
            &&& waiting(first, ids, msgs, order, kk, b)
        }),
    decreases msgs.len() - k,
{
    let n = msgs.len() as int;
    let at = seq_no(first + offset(msgs, k));
    lemma_frames_of(first, ids, msgs, n);
    lemma_offset_mono(msgs, k, n);
    assert(at == first + offset(msgs, k));
    assert(buf.dom().finite()) by {
        reveal(waiting);
    }
    assert(msgs.subrange(k, k) =~= Seq::empty());
    if k == n {
        if buf.contains_key(at) {
            lemma_waiting_only(first, ids, msgs, order, k, buf, at);
        }
        assert(drained(at, buf) == (at, buf, Seq::<Seq<u8>>::empty()));
        k
    } else {
        let c = ctrl_count(msgs[k].len());
        assert(c > 0);
        lemma_offset_mono(msgs, k + 1, n);
        assert(offset(msgs, k + 1) == offset(msgs, k) + c);
        lemma_whole_iff_came(first, ids, msgs, order, k, buf);
        if whole_at(buf, at) {
            lemma_waiting_next(first, ids, msgs, order, k, buf);
            let rest = buf.remove_keys(run_keys(at, c));
            assert(rest.dom().finite()) by {
                reveal(waiting);
            }
            assert(seq_no(at + c) == seq_no(first + offset(msgs, k + 1)));
            let kk = lemma_drained(first, ids, msgs, order, k + 1, rest);
            lemma_run_of_message(first, ids, msgs, order, k, buf, c);
            assert(carried(msgs[k], c as int) == msgs[k].len());
            assert(msgs[k].take(msgs[k].len() as int) =~= msgs[k]);
            assert(run_data(buf, at, c) == msgs[k]);
            assert(seq![msgs[k]] + msgs.subrange(k + 1, kk) =~= msgs.subrange(k, kk));
            let (nx, b, out) = drained(seq_no(at + c), rest);
            assert(buf[at].total as nat == c);
            assert(drained(at, buf) == (nx, b, seq![run_data(buf, at, c)] + out));
            kk
        } else {
            assert(drained(at, buf) == (at, buf, Seq::<Seq<u8>>::empty()));
            k
        }
    }
}

/// Message `k` lies whole in the buffer exactly where all of it has come.
#[verifier::spinoff_prover]
proof fn lemma_whole_iff_came(
    first: u32,
    ids: Seq<u32>,
    msgs: Seq<Seq<u8>>,
    order: Seq<int>,
    k: int,
    buf: Map<u32, Kept>,
)
    requires
        deliverable(first, ids, msgs),
        0 <= k < msgs.len(),
        waiting(first, ids, msgs, order, k, buf),
        all_came(msgs, order, k),
    ensures
        ({
            let at = seq_no(first + offset(msgs, k));
            &&& whole_at(buf, at) <==> all_came(msgs, order, k + 1)
            &&& whole_at(buf, at) ==> buf[at].total == ctrl_count(msgs[k].len())
        }),
{
    let n = msgs.len() as int;
    let at = seq_no(first + offset(msgs, k));
    let c = ctrl_count(msgs[k].len());
    assert(c > 0);
    lemma_offset_mono(msgs, k, n);
    lemma_offset_mono(msgs, k + 1, n);
    assert(at == first + offset(msgs, k));
    assert(offset(msgs, k + 1) == offset(msgs, k) + c);
    lemma_frame_at(first, ids, msgs, n, k, 0);
    if whole_at(buf, at) {
        lemma_waiting_only(first, ids, msgs, order, k, buf, at);
        assert(buf[at].total == c);
        assert forall|g: int| 0 <= g < offset(msgs, k + 1) implies #[trigger] order.contains(g) by {
            if g >= offset(msgs, k) {
                let i = g - offset(msgs, k);
                assert(buf.contains_key(seq_no(at + i)));
                assert(seq_no(at + i) == first + g);
                lemma_waiting_only(first, ids, msgs, order, k, buf, seq_no(at + i));
            } else {
                assert(order.contains(g));
            }
        }
        assert(all_came(msgs, order, k + 1));
    }
    if all_came(msgs, order, k + 1) {
        lemma_fragment_waits(first, ids, msgs, order, k, buf, 0);
        assert(seq_no(at + 0) == at);
        assert(buf.contains_key(at) && buf[at].frag == 0 && buf[at].total == c);
        assert forall|i: int| 0 <= i < buf[at].total implies #[trigger] buf.contains_key(
            seq_no(at + i),
        ) && buf[seq_no(at + i)].msg_id == buf[at].msg_id && buf[seq_no(at + i)].frag == i by {
            lemma_fragment_waits(first, ids, msgs, order, k, buf, i);
        }
        assert(whole_at(buf, at));
    }
}

proof fn lemma_receive_all(
    first: u32,
    ids: Seq<u32>,
    msgs: Seq<Seq<u8>>,
    order: Seq<int>,
) -> (k: int)
    requires
        deliverable(first, ids, msgs),
        forall|t: int|
            0 <= t < order.len() ==> 0 <= #[trigger] order[t] < offset(msgs, msgs.len() as int),
    ensures
        0 <= k <= msgs.len(),
        ({
            let frames = frames_of(first, ids, msgs, msgs.len() as int);
            let start = Receiving { next_seq: first, buf: Map::empty(), dead: false };
            let (r, out) = receive_all(start, arrivals(frames, order));
            &&& r.next_seq == first + offset(msgs, k)
            &&& out == msgs.take(k)
            &&& all_came(msgs, order, k)
            &&& offset(msgs, msgs.len() as int) <= MAX_RECV_BUFFER ==> !r.dead
            &&& !r.dead ==> waiting(first, ids, msgs, order, k, r.buf) && (k < msgs.len()
                ==> !all_came(msgs, order, k + 1))
        }),
    decreases order.len(),
{
    let n = msgs.len() as int;
    let frames = frames_of(first, ids, msgs, n);
    let start = Receiving { next_seq: first, buf: Map::empty(), dead: false };
    lemma_frames_of(first, ids, msgs, n);
    if order.len() == 0 {
        assert(msgs.take(0) =~= Seq::empty());
        reveal(waiting);
        if n > 0 {
            assert(ctrl_count(msgs[0].len()) > 0);
            assert(offset(msgs, 1) == offset(msgs, 0) + ctrl_count(msgs[0].len()));
            assert(!order.contains(0));
        }
        0
    } else {
        let sofar = order.drop_last();
        let g = order.last();
        assert forall|t: int| 0 <= t < sofar.len() implies 0 <= #[trigger] sofar[t] < offset(
            msgs,
            n,
        ) by {
            assert(sofar[t] == order[t]);
        }
        let k = lemma_receive_all(first, ids, msgs, sofar);
        assert(arrivals(frames, order).drop_last() =~= arrivals(frames, sofar));
        let (r, out) = receive_all(start, arrivals(frames, sofar));
        assert(order[order.len() - 1] == g);
        lemma_frame_seq(first, ids, msgs, g);
        let f = frames[g];
        assert forall|x: int| #[trigger] order.contains(x) <==> x == g || sofar.contains(x) by {
            crate::seqs::lemma_take_contains(order, order.len() - 1);
            assert(order.take(order.len() - 1) =~= sofar);
            assert(order.take(order.len() - 1 + 1) =~= order);
        }
        assert(all_came(msgs, order, k)) by {
            assert forall|x: int| 0 <= x < offset(msgs, k) implies #[trigger] order.contains(x) by {
                assert(sofar.contains(x));
            }
        }
        if r.dead {
            assert(out + Seq::<Seq<u8>>::empty() =~= out);
            k
        } else if g < offset(msgs, k) {
            assert(!r.keeps(f));
            assert(out + Seq::<Seq<u8>>::empty() =~= out);
            if k < n && all_came(msgs, order, k + 1) {
                assert forall|x: int| 0 <= x < offset(msgs, k + 1) implies #[trigger] sofar.contains(
                    x,
                ) by {
                    assert(order.contains(x));
                }
                assert(all_came(msgs, sofar, k + 1));
            }
            reveal(waiting);
            k
        } else {
            let buf = r.buf.insert(f.seq, Receiving::kept(f));
            assert(waiting(first, ids, msgs, order, k, buf)) by {
                reveal(waiting);
                assert forall|s: u32|
                    #![trigger buf.contains_key(s)]
                    buf.contains_key(s) <==> offset(msgs, k) <= s - first < frames.len()
                        && order.contains(s - first) by {
                    assert(r.buf.contains_key(s) <==> offset(msgs, k) <= s - first < frames.len()
                        && sofar.contains(s - first));
                    assert(order.contains(s - first) <==> s - first == g || sofar.contains(
                        s - first,
                    ));
                }
                assert forall|s: u32| #[trigger] buf.contains_key(s) implies buf[s]
                    == Receiving::kept(frames[s - first]) by {
                    if s != f.seq {
                        assert(r.buf.contains_key(s));
                    }
                }
            }
            lemma_offset_mono(msgs, k, n);
            assert(seq_no(first + offset(msgs, k)) == r.next_seq);
            let kk = lemma_drained(first, ids, msgs, order, k, buf);
            let (nx, b, more) = drained(r.next_seq, buf);
            assert(out + more =~= msgs.take(kk));
            assert(b.dom().len() <= offset(msgs, n)) by {
                let hi = (first + frames.len()) as u32;
                let all = Set::<u32>::range(first, hi);
                vstd::set_lib::range_set_properties(first, hi);
                assert forall|s: u32| b.dom().contains(s) implies all.contains(s) by {
                    lemma_waiting_only(first, ids, msgs, order, kk, b, s);
                }
                reveal(waiting);
                vstd::set_lib::lemma_len_subset(b.dom(), all);
            }
            kk
        }
    }
}

/// Control messages are handed out exactly once and in the order in which they were sent,
/// however their frames come: in any order, and any of them any number of times. At every
/// point the messages that have been handed out are the first ones of the stream, and, as
/// long as the receiver has not given up, as many as have come whole without a gap. It does
/// not give up on a stream that fits into its buffer.
pub proof fn law_ordered_delivery(
    first: u32,
    ids: Seq<u32>,
    msgs: Seq<Seq<u8>>,
    order: Seq<int>,
)
    requires
        deliverable(first, ids, msgs),
        forall|t: int|
            0 <= t < order.len() ==> 0 <= #[trigger] order[t] < offset(msgs, msgs.len() as int),
    ensures
        ({
            let frames = frames_of(first, ids, msgs, msgs.len() as int);
            let start = Receiving { next_seq: first, buf: Map::empty(), dead: false };
            let (r, out) = receive_all(start, arrivals(frames, order));
            let k = out.len() as int;
            &&& k <= msgs.len()
            &&& out == msgs.take(k)
            &&& r.next_seq == first + offset(msgs, k)
            &&& all_came(msgs, order, k)
            &&& !r.dead && k < msgs.len() ==> !all_came(msgs, order, k + 1)
            &&& offset(msgs, msgs.len() as int) <= MAX_RECV_BUFFER ==> !r.dead
        }),
{
    let k = lemma_receive_all(first, ids, msgs, order);
    assert(msgs.take(k).len() == k);
}

proof fn lemma_release_keeps_order(s: Sending, now: u64)
    requires
        s.contiguous(),
    ensures
        s.release(now).contiguous(),
{
    let t = s.release(now);
    let r = s.room() as int;
    assert forall|i: int| 0 <= i < t.window.len() implies (#[trigger] t.window[i]).frame.seq
        == seq_no(t.next_seq - t.held.len() - t.window.len() + i) by {
        if i < s.window.len() {
            assert(t.window[i] == s.window[i]);
        } else {
            assert(t.window[i].frame == s.held[i - s.window.len()]);
        }
    }
    assert forall|i: int| 0 <= i < t.held.len() implies (#[trigger] t.held[i]).seq == seq_no(
        t.next_seq - t.held.len() + i,
    ) by {
        assert(t.held[i] == s.held[r + i]);
    }
}

/// The window and what is held back are the latest fragments without a gap, and every
/// operation of the sender keeps it so.
pub proof fn law_window_has_no_gap(
    s: Sending,
    msg_id: u32,
    payload: Seq<u8>,
    ack: u32,
    now: u64,
)
    requires
        s.contiguous(),
    ensures
        Sending::empty().contiguous(),
        s.send(msg_id, payload, now).contiguous(),
        s.ack(ack).contiguous(),
        s.round(now).contiguous(),
{
    let t = s.queue(msg_id, payload);
    assert forall|i: int| 0 <= i < t.window.len() implies (#[trigger] t.window[i]).frame.seq
        == seq_no(t.next_seq - t.held.len() - t.window.len() + i) by {
        assert(t.window[i] == s.window[i]);
    }
    assert forall|i: int| 0 <= i < t.held.len() implies (#[trigger] t.held[i]).seq == seq_no(
        t.next_seq - t.held.len() + i,
    ) by {
        if i < s.held.len() {
            assert(t.held[i] == s.held[i]);
        } else {
            assert(t.held[i] == ctrl_fragment(
                s.next_seq,
                msg_id,
                payload,
                i - s.held.len(),
            ));
        }
    }
    lemma_release_keeps_order(t, now);
    lemma_acked_count_bound(s.window, ack);
    let u = s.ack(ack);
    assert forall|i: int| 0 <= i < u.window.len() implies (#[trigger] u.window[i]).frame.seq
        == seq_no(u.next_seq - u.held.len() - u.window.len() + i) by {
        let k = acked_count(s.window, ack) as int;
        assert(u.window[i] == s.window[k + i]);
    }
    let v = s.expire(now);
    assert forall|i: int| 0 <= i < v.window.len() implies (#[trigger] v.window[i]).frame.seq
        == seq_no(v.next_seq - v.held.len() - v.window.len() + i) by {
        assert(v.window[i] == s.window[i].checked(now));
    }
    lemma_release_keeps_order(v, now);
}

/// What can be done with a sender.
pub enum SenderStep {
    Send { msg_id: u32, payload: Seq<u8>, now: u64 },
    Ack { ack: u32 },
    Round { now: u64 },
}

/// The sender once all of `steps` have been taken.
pub open spec fn after_steps(s: Sending, steps: Seq<SenderStep>) -> Sending
    decreases steps.len(),
{
    if steps.len() == 0 {
        s
    } else {
        let before = after_steps(s, steps.drop_last());
        match steps.last() {
            SenderStep::Send { msg_id, payload, now } => before.send(msg_id, payload, now),
            SenderStep::Ack { ack } => before.ack(ack),
            SenderStep::Round { now } => before.round(now),
        }
    }
}

/// Whatever is done with a sender, never more than [`WINDOW`] fragments are sent and not
/// acknowledged. Fragments are held back only for want of room: after a message is sent
/// and after a look at the clock, the window is full where anything is held back.
pub proof fn law_window_is_limited(steps: Seq<SenderStep>)
    ensures
        ({
            let s = after_steps(Sending::empty(), steps);
            &&& s.window.len() <= WINDOW
            &&& s.contiguous()
            &&& s.held.len() > 0 && !(steps.last() is Ack) ==> s.window.len() == WINDOW
        }),
    decreases steps.len(),
{
    if steps.len() > 0 {
        law_window_is_limited(steps.drop_last());
        let b = after_steps(Sending::empty(), steps.drop_last());
        match steps.last() {
            SenderStep::Send { msg_id, payload, now } => {
                law_window_has_no_gap(b, msg_id, payload, 0, now);
            },
            SenderStep::Ack { ack } => {
                law_window_has_no_gap(b, 0, Seq::empty(), ack, 0);
                lemma_acked_count_bound(b.window, ack);
            },
            SenderStep::Round { now } => {
                law_window_has_no_gap(b, 0, Seq::empty(), 0, now);
                assert(b.expire(now).window.len() == b.window.len());
            },
        }
    }
}

proof fn lemma_acked_count_bound(w: Seq<Unacked>, ack: u32)
    ensures
        acked_count(w, ack) <= w.len(),
    decreases w.len(),
{
    if w.len() > 0 {
        lemma_acked_count_bound(w.skip(1), ack);
    }
}

/// Of two numbers that lie `d` and `e` before `next`, the farther one comes first.
proof fn lemma_ring_order(next: u32, d: int, e: int)
    requires
        1 <= d <= 0x8000_0000,
        1 <= e <= 0x8000_0001,
    ensures
        e <= d ==> super::reliable::seq_at_or_before(seq_no(next - d), seq_no(next - e)),
        e == d + 1 ==> !super::reliable::seq_at_or_before(seq_no(next - d), seq_no(next - e)),
{
    let a: int = if next >= d {
        next - d
    } else {
        next - d + 0x1_0000_0000
    };
    let b: int = if next >= e {
        next - e
    } else {
        next - e + 0x1_0000_0000
    };
    assert(seq_no(next - d) == a);
    assert(seq_no(next - e) == b);
    if e <= d {
        assert((b - a) % 0x1_0000_0000 == d - e);
    }
    if e == d + 1 {
        assert((b - a) % 0x1_0000_0000 == 0xFFFF_FFFF);
    }
}

/// The number of the first fragment that has not gone out.
pub open spec fn unsent(s: Sending) -> u32 {
    seq_no(s.next_seq - s.held.len())
}

proof fn lemma_seq_no_back(x: int, d: int)
    ensures
        seq_no(seq_no(x) - d) == seq_no(x - d),
{
}

proof fn lemma_acked_count(s: Sending, j: int, from: int)
    requires
        s.contiguous(),
        s.window.len() <= 0x8000_0000,
        0 <= j <= s.window.len(),
        0 <= from <= s.window.len() - j,
    ensures
        acked_count(s.window.skip(from), seq_no(unsent(s) - 1 - j)) == s.window.len() - j - from,
    decreases s.window.len() - j - from,
{
    let n = s.window.len() as int;
    let top = unsent(s);
    let w = s.window.skip(from);
    if from < n {
        assert(w[0] == s.window[from]);
        lemma_seq_no_back(s.next_seq - s.held.len(), n - from);
        assert(s.next_seq - s.held.len() - n + from == s.next_seq - s.held.len() - (n - from));
        assert(w[0].frame.seq == seq_no(top - (n - from)));
        assert(top - 1 - j == top - (1 + j));
        lemma_ring_order(top, n - from, 1 + j);
        if from < n - j {
            lemma_acked_count(s, j, from + 1);
            assert(w.skip(1) =~= s.window.skip(from + 1));
        }
    }
}

/// A cumulative acknowledgement releases exactly the fragments that it covers: one that
/// stops `j` short of the latest fragment that was sent leaves the latest `j`.
pub proof fn law_ack_releases_window(s: Sending, j: int)
    requires
        s.contiguous(),
        s.window.len() <= 0x8000_0000,
        0 <= j <= s.window.len(),
    ensures
        s.ack(seq_no(unsent(s) - 1 - j)).window == s.window.skip(s.window.len() - j),
{
    lemma_acked_count(s, j, 0);
    assert(s.window.skip(0) =~= s.window);
}

/// The sender has taken the whole stream and let go of its first `base` fragments; all
/// others are in the window or held back.
pub open spec fn carries(
    s: Sending,
    first: u32,
    ids: Seq<u32>,
    msgs: Seq<Seq<u8>>,
    base: int,
) -> bool {
    let frames = frames_of(first, ids, msgs, msgs.len() as int);
    &&& s.contiguous()
    &&& s.next_seq == first + frames.len()
    &&& 0 <= base
    &&& base + s.window.len() + s.held.len() == frames.len()
    &&& forall|g: int|
        0 <= g < s.window.len() ==> (#[trigger] s.window[g]).frame == frames[base + g]
    &&& forall|g: int|
        0 <= g < s.held.len() ==> #[trigger] s.held[g] == frames[base + s.window.len() + g]
}

proof fn lemma_frames_of_prefix(
    first: u32,
    ids: Seq<u32>,
    msgs: Seq<Seq<u8>>,
    id: u32,
    m: Seq<u8>,
    j: int,
)
    requires
        ids.len() == msgs.len(),
        0 <= j <= msgs.len(),
    ensures
        offset(msgs.push(m), j) == offset(msgs, j),
        frames_of(first, ids.push(id), msgs.push(m), j) == frames_of(first, ids, msgs, j),
    decreases j,
{
    if j > 0 {
        lemma_frames_of_prefix(first, ids, msgs, id, m, j - 1);
        assert(msgs.push(m)[j - 1] == msgs[j - 1]);
        assert(ids.push(id)[j - 1] == ids[j - 1]);
    }
}

proof fn lemma_release_carries(
    s: Sending,
    first: u32,
    ids: Seq<u32>,
    msgs: Seq<Seq<u8>>,
    base: int,
    now: u64,
)
    requires
        carries(s, first, ids, msgs, base),
    ensures
        carries(s.release(now), first, ids, msgs, base),
{
    let frames = frames_of(first, ids, msgs, msgs.len() as int);
    let t = s.release(now);
    let r = s.room() as int;
    lemma_release_keeps_order(s, now);
    assert forall|g: int| 0 <= g < t.window.len() implies (#[trigger] t.window[g]).frame
        == frames[base + g] by {
        if g < s.window.len() {
            assert(t.window[g] == s.window[g]);
        } else {
            assert(t.window[g].frame == s.held[g - s.window.len()]);
        }
    }
    assert forall|g: int| 0 <= g < t.held.len() implies #[trigger] t.held[g] == frames[base
        + t.window.len() + g] by {
        assert(t.held[g] == s.held[r + g]);
    }
}

/// A sender loses nothing of what it is given: a new message joins the stream at its end,
/// and sending again and letting go out take nothing away.
pub proof fn law_stream_is_carried(
    s: Sending,
    first: u32,
    ids: Seq<u32>,
    msgs: Seq<Seq<u8>>,
    base: int,
    id: u32,
    m: Seq<u8>,
    now: u64,
)
    requires
        carries(s, first, ids, msgs, base),
        deliverable(first, ids.push(id), msgs.push(m)),
    ensures
        carries(
            Sending {
                next_seq: first,
                window: Seq::empty(),
                held: Seq::empty(),
                stalled: false,
            },
            first,
            Seq::empty(),
            Seq::empty(),
            0,
        ),
        carries(s.send(id, m, now), first, ids.push(id), msgs.push(m), base),
        carries(s.round(now), first, ids, msgs, base),
{
    let n = msgs.len() as int;
    assert(ids.len() == n) by {
        assert(ids.push(id).len() == msgs.push(m).len());
    }
    let frames = frames_of(first, ids, msgs, n);
    let all = frames_of(first, ids.push(id), msgs.push(m), n + 1);
    lemma_frames_of_prefix(first, ids, msgs, id, m, n);
    lemma_frames_of(first, ids, msgs, n);
    lemma_frames_of(first, ids.push(id), msgs.push(m), n + 1);
    let fs = ctrl_fragments(s.next_seq, id, m);
    assert(msgs.push(m)[n] == m);
    assert(ids.push(id)[n] == id);
    assert(all =~= frames + fs);
    let q = s.queue(id, m);
    assert(q.next_seq == first + all.len());
    assert(q.contiguous()) by {
        assert forall|i: int| 0 <= i < q.window.len() implies (#[trigger] q.window[i]).frame.seq
            == seq_no(q.next_seq - q.held.len() - q.window.len() + i) by {
            assert(q.window[i] == s.window[i]);
        }
        assert forall|i: int| 0 <= i < q.held.len() implies (#[trigger] q.held[i]).seq == seq_no(
            q.next_seq - q.held.len() + i,
        ) by {
            if i < s.held.len() {
                assert(q.held[i] == s.held[i]);
            } else {
                assert(q.held[i] == fs[i - s.held.len()]);
            }
        }
    }
    assert forall|g: int| 0 <= g < q.held.len() implies #[trigger] q.held[g] == all[base
        + q.window.len() + g] by {
        if g < s.held.len() {
            assert(q.held[g] == s.held[g]);
        } else {
            assert(q.held[g] == fs[g - s.held.len()]);
        }
    }
    assert(carries(q, first, ids.push(id), msgs.push(m), base));
    lemma_release_carries(q, first, ids.push(id), msgs.push(m), base, now);
    let v = s.expire(now);
    assert forall|i: int| 0 <= i < v.window.len() implies #[trigger] v.window[i]
        == s.window[i].checked(now) by {}
    assert(carries(v, first, ids, msgs, base));
    lemma_release_carries(v, first, ids, msgs, base, now);
}

/// Nothing is lost between the two sides. Whatever has come of the frames that went out, the
/// acknowledgement of the receiver makes the sender let go of exactly the fragments of the
/// messages that were handed out; all others stay, to be sent or sent again.
pub proof fn law_unreceived_fragments_are_kept(
    s: Sending,
    first: u32,
    ids: Seq<u32>,
    msgs: Seq<Seq<u8>>,
    base: int,
    order: Seq<int>,
)
    requires
        deliverable(first, ids, msgs),
        carries(s, first, ids, msgs, base),
        s.window.len() <= WINDOW,
        forall|t: int|
            0 <= t < order.len() ==> 0 <= #[trigger] order[t] < base + s.window.len(),
        ({
            let (r, out) = receive_all(
                Receiving { next_seq: first, buf: Map::empty(), dead: false },
                arrivals(frames_of(first, ids, msgs, msgs.len() as int), order),
            );
            base <= offset(msgs, out.len() as int)
        }),
    ensures
        ({
            let (r, out) = receive_all(
                Receiving { next_seq: first, buf: Map::empty(), dead: false },
                arrivals(frames_of(first, ids, msgs, msgs.len() as int), order),
            );
            carries(s.ack(r.ack()), first, ids, msgs, offset(msgs, out.len() as int) as int)
        }),
{
    let n = msgs.len() as int;
    let frames = frames_of(first, ids, msgs, n);
    lemma_frames_of(first, ids, msgs, n);
    law_ordered_delivery(first, ids, msgs, order);
    let (r, out) = receive_all(
        Receiving { next_seq: first, buf: Map::empty(), dead: false },
        arrivals(frames, order),
    );
    let got = offset(msgs, out.len() as int) as int;
    lemma_offset_mono(msgs, out.len() as int, n);
    if got > 0 {
        assert(order.contains(got - 1));
        let t = choose|t: int| 0 <= t < order.len() && order[t] == got - 1;
        assert(order[t] < base + s.window.len());
    }
    let j = base + s.window.len() - got;
    assert(unsent(s) == first + base + s.window.len());
    assert(r.ack() == seq_no(unsent(s) - 1 - j));
    law_ack_releases_window(s, j);
    law_window_has_no_gap(s, 0, Seq::empty(), r.ack(), 0);
    let u = s.ack(r.ack());
    assert forall|g: int| 0 <= g < u.window.len() implies (#[trigger] u.window[g]).frame
        == frames[got + g] by {
        assert(u.window[g] == s.window[got - base + g]);
    }
    assert forall|g: int| 0 <= g < u.held.len() implies #[trigger] u.held[g] == frames[got
        + u.window.len() + g] by {
        assert(u.held[g] == s.held[g]);
    }
}

/// An acknowledgement that was taken once changes nothing when it comes again.
pub proof fn law_ack_is_idempotent(s: Sending, ack: u32)
    ensures
        s.ack(ack).ack(ack).window == s.ack(ack).window,
    decreases s.window.len(),
{
    let k = acked_count(s.window, ack);
    lemma_acked_count_bound(s.window, ack);
    if s.window.len() > 0 && super::reliable::seq_at_or_before(s.window[0].frame.seq, ack) {
        let t = Sending { window: s.window.skip(1), ..s };
        law_ack_is_idempotent(t, ack);
        lemma_acked_count_bound(t.window, ack);
        assert(t.window.skip(acked_count(t.window, ack) as int) =~= s.window.skip(k as int));
        assert(s.ack(ack).window == t.ack(ack).window);
    } else {
        assert(s.window.skip(0) =~= s.window);
    }
}

/// A sender that has given up on nothing gives up exactly when a fragment's last wait
/// runs out; until then no fragment has been sent again more often than the limit allows.
pub proof fn law_sender_gives_up_in_time(s: Sending, now: u64)
    requires
        s.hopeful(),
        !s.stalled,
    ensures
        !s.round(now).stalled ==> s.round(now).hopeful(),
        s.round(now).stalled <==> exists|i: int|
            0 <= i < s.window.len() && (#[trigger] s.window[i]).lost(now),
{
    if !s.expire(now).stalled {
        let v = s.expire(now);
        assert forall|i: int| 0 <= i < v.window.len() implies (#[trigger] v.window[i]).loss_count
            <= super::reliable::LOSS_LIMIT by {
            assert(v.window[i] == s.window[i].checked(now));
            assert(!s.window[i].lost(now));
        }
        let w = s.round(now);
        assert forall|i: int| 0 <= i < w.window.len() implies (#[trigger] w.window[i]).loss_count
            <= super::reliable::LOSS_LIMIT by {
            if i < v.window.len() {
                assert(w.window[i] == v.window[i]);
            }
        }
    }
}

/// Sending and acknowledgements give up on nothing.
pub proof fn lemma_hopeful_is_kept(
    s: Sending,
    msg_id: u32,
    payload: Seq<u8>,
    ack: u32,
    now: u64,
)
    ensures
        s.hopeful() ==> s.send(msg_id, payload, now).hopeful(),
        s.hopeful() ==> s.ack(ack).hopeful(),
{
    if s.hopeful() {
        let t = s.send(msg_id, payload, now);
        assert forall|i: int| 0 <= i < t.window.len() implies (#[trigger] t.window[i]).loss_count
            <= super::reliable::LOSS_LIMIT by {
            if i < s.window.len() {
                assert(t.window[i] == s.window[i]);
            }
        }
        lemma_acked_count_bound(s.window, ack);
        let u = s.ack(ack);
        let k = acked_count(s.window, ack) as int;
        assert forall|i: int| 0 <= i < u.window.len() implies (#[trigger] u.window[i]).loss_count
            <= super::reliable::LOSS_LIMIT by {
            assert(u.window[i] == s.window[k + i]);
        }
    }
}

/// How long a fragment that was sent again `loss` times waits, in nanoseconds: 200, 400, 800
/// and then always 1600 milliseconds.
pub open spec fn patience(loss: u32) -> int {
    if loss == 0 {
        200_000_000
    } else if loss == 1 {
        400_000_000
    } else if loss == 2 {
        800_000_000
    } else {
        1_600_000_000
    }
}

proof fn lemma_patience(loss: u32)
    ensures
        super::reliable::retransmission_wait(loss as nat) == patience(loss),
    decreases loss,
{
    reveal_with_fuel(super::reliable::retransmission_wait, 4);
    if loss > 3 {
        lemma_patience((loss - 1) as u32);
    }
}

/// The frames that go out at a look at the clock are those of the fragments that are not
/// acknowledged, whose wait has run out and that were sent again fewer than eight times, oldest
/// first, and then those of the oldest held fragments. So a fragment is sent again and again,
/// up to eight times, until it is acknowledged.
pub proof fn law_overdue_fragments_are_sent_again(s: Sending, now: u64)
    requires
        forall|i: int| 0 <= i < s.window.len() ==> (#[trigger] s.window[i]).last_sent <= now,
    ensures
        resent_frames(s.window, now) == s.window.filter(
            |u: Unacked| now - u.last_sent >= patience(u.loss_count) && u.loss_count < 8,
        ).map_values(|u: Unacked| u.frame),
        forall|i: int|
            0 <= i < s.window.len() && now - (#[trigger] s.window[i]).last_sent >= patience(
                s.window[i].loss_count,
            ) && s.window[i].loss_count < 8 ==> (resent_frames(s.window, now)
                + s.freed()).contains(s.window[i].frame),
{
    lemma_resent(s.window, now);
    let due = |u: Unacked| now - u.last_sent >= patience(u.loss_count) && u.loss_count < 8;
    let kept = s.window.filter(due);
    assert forall|i: int|
        0 <= i < s.window.len() && now - (#[trigger] s.window[i]).last_sent >= patience(
            s.window[i].loss_count,
        ) && s.window[i].loss_count < 8 implies (resent_frames(s.window, now)
            + s.freed()).contains(s.window[i].frame) by {
        s.window.lemma_filter_contains(due, i);
        let j = choose|j: int| 0 <= j < kept.len() && kept[j] == s.window[i];
        assert((resent_frames(s.window, now) + s.freed())[j] == s.window[i].frame);
    }
}

proof fn lemma_resent(w: Seq<Unacked>, now: u64)
    requires
        forall|i: int| 0 <= i < w.len() ==> (#[trigger] w[i]).last_sent <= now,
    ensures
        resent_frames(w, now) == w.filter(
            |u: Unacked| now - u.last_sent >= patience(u.loss_count) && u.loss_count < 8,
        ).map_values(|u: Unacked| u.frame),
    decreases w.len(),
{
    reveal(Seq::filter);
    let due = |u: Unacked| now - u.last_sent >= patience(u.loss_count) && u.loss_count < 8;
    let frame = |u: Unacked| u.frame;
    if w.len() > 0 {
        lemma_resent(w.drop_last(), now);
        lemma_patience(w.last().loss_count);
        assert(w[w.len() - 1].last_sent <= now);
        let before = w.drop_last().filter(due);
        if due(w.last()) {
            assert(w.filter(due) =~= before.push(w.last()));
            assert(w.filter(due).map_values(frame) =~= before.map_values(frame).push(
                w.last().frame,
            ));
        } else {
            assert(w.filter(due) =~= before);
        }
    } else {
        assert(w.filter(due).map_values(frame) =~= Seq::empty());
    }
}

/// A look at the clock takes no fragment out of the window and changes none of its frames. One
/// whose wait has run out counts one more try, and waits from now on; the others go on waiting.
/// The sender gives up exactly where the wait of a fragment has run out that was sent again
/// eight times, or where it had given up.
pub proof fn law_look_at_the_clock_counts_tries(s: Sending, now: u64)
    requires
        forall|i: int|
            0 <= i < s.window.len() ==> (#[trigger] s.window[i]).last_sent <= now
                && s.window[i].loss_count < u32::MAX,
    ensures
        ({
            let t = s.round(now);
            &&& t.window.len() >= s.window.len()
            &&& t.next_seq == s.next_seq
            &&& forall|i: int|
                0 <= i < s.window.len() ==> {
                    let u = s.window[i];
                    let v = #[trigger] t.window[i];
                    &&& v.frame == u.frame
                    &&& now - u.last_sent >= patience(u.loss_count) ==> v.loss_count
                        == u.loss_count + 1 && v.last_sent == now
                    &&& now - u.last_sent < patience(u.loss_count) ==> v == u
                }
            &&& t.stalled <==> s.stalled || exists|i: int|
                0 <= i < s.window.len() && now - (#[trigger] s.window[i]).last_sent >= patience(
                    s.window[i].loss_count,
                ) && s.window[i].loss_count >= 8
        }),
{
    let t = s.round(now);
    let v = s.expire(now);
    assert forall|i: int| 0 <= i < s.window.len() implies {
        let u = s.window[i];
        let v = #[trigger] t.window[i];
        &&& v.frame == u.frame
        &&& now - u.last_sent >= patience(u.loss_count) ==> v.loss_count == u.loss_count + 1
            && v.last_sent == now
        &&& now - u.last_sent < patience(u.loss_count) ==> v == u
    } by {
        lemma_patience(s.window[i].loss_count);
        assert(s.window[i].last_sent <= now);
        assert(t.window[i] == v.window[i]);
    }
    if t.stalled && !s.stalled {
        let i = choose|i: int| 0 <= i < s.window.len() && (#[trigger] s.window[i]).lost(now);
        lemma_patience(s.window[i].loss_count);
        assert(s.window[i].last_sent <= now);
    }
    if exists|i: int|
        0 <= i < s.window.len() && now - (#[trigger] s.window[i]).last_sent >= patience(
            s.window[i].loss_count,
        ) && s.window[i].loss_count >= 8 {
        let i = choose|i: int|
            0 <= i < s.window.len() && now - (#[trigger] s.window[i]).last_sent >= patience(
                s.window[i].loss_count,
            ) && s.window[i].loss_count >= 8;
        lemma_patience(s.window[i].loss_count);
        assert(s.window[i].lost(now));
    }
}

/// A fragment that nothing acknowledges goes out, after it was first sent, at each of the next
/// eight looks at the clock that come when its wait has run out: once it was sent again `loss`
/// times, fewer than eight, the next such look hands it out once more, and the sender has not
/// given up on it.
pub proof fn law_lost_fragment_is_tried_eight_times(s: Sending, i: int, now: u64)
    requires
        0 <= i < s.window.len(),
        s.window[i].loss_count < 8,
        now - s.window[i].last_sent >= patience(s.window[i].loss_count),
        forall|j: int|
            0 <= j < s.window.len() ==> (#[trigger] s.window[j]).last_sent <= now
                && s.window[j].loss_count < u32::MAX,
    ensures
        (resent_frames(s.window, now) + s.freed()).contains(s.window[i].frame),
        s.round(now).window[i].frame == s.window[i].frame,
        s.round(now).window[i].loss_count == s.window[i].loss_count + 1,
        s.window.len() == 1 ==> s.round(now).stalled == s.stalled,
{
    law_overdue_fragments_are_sent_again(s, now);
    law_look_at_the_clock_counts_tries(s, now);
}

/// What goes out for the first time is what joins the window, at its end, as sent now and never
/// sent again; it is the oldest of what was held back. Sending a message takes every fragment
/// of it into the window or holds it back, and the sender starts anew where it had given up.
pub proof fn law_what_goes_out_is_kept(s: Sending, msg_id: u32, payload: Seq<u8>, now: u64)
    ensures
        ({
            let q = s.queue(msg_id, payload);
            let t = s.send(msg_id, payload, now);
            let out = q.freed();
            &&& !t.stalled
            &&& t.window.take(s.window.len() as int) == s.window
            &&& t.window.len() == s.window.len() + out.len()
            &&& forall|i: int|
                0 <= i < out.len() ==> {
                    let u = #[trigger] t.window[s.window.len() + i];
                    u.frame == out[i] && u.last_sent == now && u.loss_count == 0
                }
            &&& out + t.held == s.held + ctrl_fragments(s.next_seq, msg_id, payload)
            &&& t.held.len() > 0 ==> t.window.len() >= 32
            &&& s.window.len() <= 32 ==> t.window.len() <= 32
        }),
        ({
            let t = s.round(now);
            let out = s.freed();
            &&& t.window.len() == s.window.len() + out.len()
            &&& forall|i: int|
                0 <= i < out.len() ==> {
                    let u = #[trigger] t.window[s.window.len() + i];
                    u.frame == out[i] && u.last_sent == now && u.loss_count == 0
                }
            &&& out + t.held == s.held
            &&& t.held.len() > 0 ==> t.window.len() >= 32
            &&& s.window.len() <= 32 ==> t.window.len() <= 32
        }),
{
    let q = s.queue(msg_id, payload);
    let t = s.send(msg_id, payload, now);
    assert(t.window.take(s.window.len() as int) =~= s.window);
    assert(q.freed() + t.held =~= q.held);
    let u = s.round(now);
    assert(s.freed() + u.held =~= s.held);
}

/// An acknowledgement that says nothing new, because it lies before everything in the window,
/// releases nothing, however old it is.
pub proof fn law_old_ack_releases_nothing(s: Sending, ack: u32)
    requires
        s.window.len() > 0,
        0 < (s.window[0].frame.seq - ack) % 0x1_0000_0000 < 0x8000_0000,
    ensures
        s.ack(ack) == s,
{
    let d = (s.window[0].frame.seq - ack) % 0x1_0000_0000;
    assert((ack - s.window[0].frame.seq) % 0x1_0000_0000 == 0x1_0000_0000 - d);
    assert(s.window.skip(0) =~= s.window);
}

/// An acknowledgement holds nothing back and loses nothing that waits for room. One that
/// releases some but not all of the window shows that the phone is there: the sender has not
/// given up any more.
pub proof fn law_ack_shows_progress(s: Sending, ack: u32)
    ensures
        s.ack(ack).held == s.held,
        s.ack(ack).next_seq == s.next_seq,
        0 < s.ack(ack).window.len() < s.window.len() ==> !s.ack(ack).stalled,
        s.ack(ack).stalled ==> s.stalled,
        s.ack(ack).window.len() == s.window.len() || s.ack(ack).window.len() == 0
            ==> s.ack(ack).stalled == s.stalled,
{
    lemma_acked_count_bound(s.window, ack);
}

} // verus!
