//! Facts about sequences that several modules use.
use vstd::prelude::*;

verus! {

/// What is left from place `i` on is the item there and what is left after it.
pub proof fn lemma_skip_contains<A>(s: Seq<A>, i: int)
    requires
        0 <= i < s.len(),
    ensures
        forall|k: A| #[trigger]
            s.skip(i).contains(k) <==> k == s[i] || s.skip(i + 1).contains(k),
{
    let rest = s.skip(i);
    let tail = s.skip(i + 1);
    assert(rest[0] == s[i]);
    assert forall|k: A| #[trigger] rest.contains(k) implies k == s[i] || tail.contains(k) by {
        let j = choose|j: int| 0 <= j < rest.len() && rest[j] == k;
        if j > 0 {
            assert(tail[j - 1] == k);
        }
    }
    assert forall|k: A| k == s[i] || tail.contains(k) implies #[trigger] rest.contains(k) by {
        if k != s[i] {
            let j = choose|j: int| 0 <= j < tail.len() && tail[j] == k;
            assert(rest[j + 1] == k);
        }
    }
}

/// What stands before place `k + 1` is what stands before place `k` and the item there.
pub proof fn lemma_take_contains<A>(s: Seq<A>, k: int)
    requires
        0 <= k < s.len(),
    ensures
        forall|x: A| #[trigger]
            s.take(k + 1).contains(x) <==> x == s[k] || s.take(k).contains(x),
        s.no_duplicates() ==> !s.take(k).contains(s[k]),
{
    let front = s.take(k);
    let more = s.take(k + 1);
    assert(more[k] == s[k]);
    assert forall|x: A| #[trigger] more.contains(x) implies x == s[k] || front.contains(x) by {
        let j = choose|j: int| 0 <= j < more.len() && more[j] == x;
        if j < k {
            assert(front[j] == x);
        }
    }
    assert forall|x: A| x == s[k] || front.contains(x) implies #[trigger] more.contains(x) by {
        if x != s[k] {
            let j = choose|j: int| 0 <= j < front.len() && front[j] == x;
            assert(more[j] == x);
        }
    }
    if s.no_duplicates() && front.contains(s[k]) {
        let j = choose|j: int| 0 <= j < front.len() && front[j] == s[k];
        assert(s[j] == s[k]);
    }
}

} // verus!
