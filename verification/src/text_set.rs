//! A set of texts.
use crate::text::{copy_text, same};
use vstd::prelude::*;

verus! {

/// A set of texts, in the order in which they came.
#[derive(Debug)]
pub struct TextSet {
    items: Vec<String>,
}

impl View for TextSet {
    type V = Set<Seq<char>>;

    closed spec fn view(&self) -> Set<Seq<char>> {
        crate::text::string_views(self.items@).to_set()
    }
}

impl TextSet {
    /// No text occurs twice.
    pub closed spec fn wf(&self) -> bool {
        crate::text::string_views(self.items@).no_duplicates()
    }

    /// The texts, in the order in which they came.
    pub closed spec fn order(&self) -> Seq<Seq<char>> {
        crate::text::string_views(self.items@)
    }

    pub proof fn lemma_order(&self)
        requires
            self.wf(),
        ensures
            self.order().no_duplicates(),
            self.order().to_set() == self@,
            self.order().len() == self@.len(),
            self@.finite(),
    {
        self.order().unique_seq_to_set();
    }

    pub fn new() -> (r: Self)
        ensures
            r.wf(),
            r@ == Set::<Seq<char>>::empty(),
            r.order() == Seq::<Seq<char>>::empty(),
    {
        let r = TextSet { items: Vec::new() };
        assert(crate::text::string_views(r.items@) =~= Seq::empty());
        assert(r@ =~= Set::empty());
        r
    }

    pub fn len(&self) -> (r: usize)
        requires
            self.wf(),
        ensures
            r == self@.len(),
            r == self.order().len(),
    {
        proof {
            self.lemma_order();
        }
        self.items.len()
    }

    pub fn is_empty(&self) -> (r: bool)
        requires
            self.wf(),
        ensures
            r == (self@ == Set::<Seq<char>>::empty()),
    {
        proof {
            self.lemma_order();
            if self.items@.len() > 0 {
                assert(self.order().contains(self.order()[0]));
                assert(self@.contains(self.order()[0]));
            } else {
                assert(self@ =~= Set::empty());
            }
        }
        self.items.len() == 0
    }

    /// The text at place `i` of the order.
    pub fn get(&self, i: usize) -> (r: &String)
        requires
            i < self.order().len(),
        ensures
            r@ == self.order()[i as int],
            self@.contains(r@),
    {
        proof {
            let s = self.order();
            assert(s[i as int] == self.items@[i as int]@);
            assert(s.contains(s[i as int]));
        }
        &self.items[i]
    }

    pub fn contains(&self, s: &str) -> (r: bool)
        ensures
            r == self@.contains(s@),
    {
        let mut i: usize = 0;
        while i < self.items.len()
            invariant
                i <= self.items@.len(),
                forall|j: int| 0 <= j < i ==> #[trigger] self.items@[j]@ != s@,
            decreases self.items@.len() - i,
        {
            if same(self.items[i].as_str(), s) {
                proof {
                    let v = crate::text::string_views(self.items@);
                    assert(v[i as int] == s@);
                    assert(v.contains(s@));
                }
                return true;
            }
            i += 1;
        }
        proof {
            let v = crate::text::string_views(self.items@);
            if v.contains(s@) {
                let k = choose|k: int| 0 <= k < v.len() && v[k] == s@;
                assert(self.items@[k]@ == s@);
            }
        }
        false
    }

    /// Adds `s` at the end, unless it is there.
    pub fn insert(&mut self, s: String)
        requires
            old(self).wf(),
        ensures
            final(self).wf(),
            final(self)@ == old(self)@.insert(s@),
            final(self).order() == if old(self)@.contains(s@) {
                old(self).order()
            } else {
                old(self).order().push(s@)
            },
    {
        if self.contains(s.as_str()) {
            assert(self@ =~= old(self)@.insert(s@));
            return;
        }
        let ghost before = crate::text::string_views(self.items@);
        self.items.push(s);
        proof {
            let after = crate::text::string_views(self.items@);
            assert(after =~= before.push(s@));
            assert(!before.contains(s@));
            assert forall|i: int, j: int| 0 <= i < after.len() && 0 <= j < after.len() && i
                != j implies after[i] != after[j] by {
                if i < before.len() && j < before.len() {
                    assert(before[i] != before[j]);
                } else if i < before.len() {
                    assert(before.contains(before[i]));
                } else if j < before.len() {
                    assert(before.contains(before[j]));
                }
            }
            assert(self@ =~= old(self)@.insert(s@)) by {
                assert forall|t: Seq<char>| #[trigger] self@.contains(t) <==> old(self)@.insert(
                    s@,
                ).contains(t) by {
                    if after.contains(t) && t != s@ {
                        let k = choose|k: int| 0 <= k < after.len() && after[k] == t;
                        assert(before[k] == t);
                    }
                    if before.contains(t) {
                        let k = choose|k: int| 0 <= k < before.len() && before[k] == t;
                        assert(after[k] == t);
                    }
                    assert(after[before.len() as int] == s@);
                }
            }
        }
    }

    /// The texts of this set that `other` does not have, in their order.
    pub fn difference(&self, other: &TextSet) -> (r: TextSet)
        requires
            self.wf(),
        ensures
            r.wf(),
            r@ == self@.difference(other@),
            r.order() == self.order().filter(|t: Seq<char>| !other@.contains(t)),
    {
        let mut r = TextSet::new();
        let ghost mine = self.order();
        let ghost absent = |t: Seq<char>| !other@.contains(t);
        let mut i: usize = 0;
        proof {
            reveal(Seq::filter);
            assert(mine.take(0) =~= Seq::empty());
        }
        while i < self.items.len()
            invariant
                i <= self.items@.len(),
                mine == self.order(),
                absent == (|t: Seq<char>| !other@.contains(t)),
                mine.no_duplicates(),
                r.wf(),
                r.order() == mine.take(i as int).filter(absent),
                forall|t: Seq<char>| #[trigger]
                    r@.contains(t) <==> mine.take(i as int).contains(t) && !other@.contains(t),
            decreases self.items@.len() - i,
        {
            let ghost before = r@;
            proof {
                assert(mine[i as int] == self.items@[i as int]@);
                let t = mine.take(i + 1);
                assert(t.drop_last() =~= mine.take(i as int));
                assert(t.last() == mine[i as int]);
                reveal(Seq::filter);
                assert(!mine.take(i as int).contains(mine[i as int]));
                assert(t =~= mine.take(i as int).push(mine[i as int]));
                assert forall|x: Seq<char>| #[trigger] t.contains(x) <==> mine.take(
                    i as int,
                ).contains(x) || x == mine[i as int] by {
                    if mine.take(i as int).contains(x) {
                        let k = choose|k: int|
                            0 <= k < mine.take(i as int).len() && mine.take(i as int)[k] == x;
                        assert(t[k] == x);
                    }
                    assert(t[i as int] == mine[i as int]);
                }
            }
            if !other.contains(self.items[i].as_str()) {
                r.insert(copy_text(&self.items[i]));
            }
            i += 1;
        }
        proof {
            assert(mine.take(i as int) =~= mine);
            assert(r@ =~= self@.difference(other@));
        }
        r
    }
}

} // verus!
