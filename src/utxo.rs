use vstd::prelude::*;
use crate::outpoint::{OutPoint, outpoint_lt, compare_outpoints, lemma_outpoint_lt_transitive, lemma_outpoint_lt_irreflexive};

verus! {

/// Entries sorted by strictly ascending outpoint, hence with unique keys.
pub open spec fn sorted_keys(s: Seq<(OutPoint, u64)>) -> bool {
    forall|i: int, j: int| 0 <= i < j < s.len() ==> outpoint_lt(s[i].0, s[j].0)
}

pub open spec fn has_key(s: Seq<(OutPoint, u64)>, o: OutPoint) -> bool {
    exists|i: int| 0 <= i < s.len() && s[i].0 == o
}

pub open spec fn distinct_keys(s: Seq<(OutPoint, u64)>) -> bool {
    forall|i: int, j: int| 0 <= i < j < s.len() ==> s[i].0 != s[j].0
}

pub proof fn lemma_sorted_unique(s: Seq<(OutPoint, u64)>, i: int, k: int)
    requires
        sorted_keys(s),
        0 <= i < s.len(),
        0 <= k < s.len(),
        s[i].0 == s[k].0,
    ensures
        i == k,
{
    lemma_outpoint_lt_irreflexive(s[i].0);
}

/// The wallet's unspent outputs with their amounts, ordered by outpoint.
pub struct UtxoSet {
    entries: Vec<(OutPoint, u64)>,
}

impl View for UtxoSet {
    type V = Seq<(OutPoint, u64)>;

    closed spec fn view(&self) -> Seq<(OutPoint, u64)> {
        self.entries@
    }
}

impl UtxoSet {
    pub open spec fn wf(&self) -> bool {
        sorted_keys(self@)
    }

    pub fn new() -> (r: UtxoSet)
        ensures
            r.wf(),
            r@.len() == 0,
    {
        UtxoSet { entries: Vec::new() }
    }

    pub fn len(&self) -> (r: usize)
        ensures
            r == self@.len(),
    {
        self.entries.len()
    }

    /// The entry at position `i` in outpoint order.
    pub fn entry(&self, i: usize) -> (r: (OutPoint, u64))
        requires
            i < self@.len(),
        ensures
            r == self@[i as int],
    {
        self.entries[i]
    }

    /// The outpoints, in order.
    pub fn keys(&self) -> (r: Vec<OutPoint>)
        ensures
            r@.len() == self@.len(),
            forall|i: int| 0 <= i < r@.len() ==> r@[i] == self@[i].0,
    {
        let mut r: Vec<OutPoint> = Vec::new();
        let mut i: usize = 0;
        while i < self.entries.len()
            invariant
                i <= self@.len(),
                self@ == self.entries@,
                r@.len() == i,
                forall|k: int| 0 <= k < i ==> r@[k] == self@[k].0,
            decreases self@.len() - i,
        {
            r.push(self.entries[i].0);
            i = i + 1;
        }
        r
    }

    /// The amount of `o`, if the set holds it.
    pub fn get(&self, o: &OutPoint) -> (r: Option<u64>)
        requires
            self.wf(),
        ensures
            r is None <==> !has_key(self@, *o),
            r matches Some(a) ==> self@.contains((*o, a)),
    {
        let mut i: usize = 0;
        while i < self.entries.len()
            invariant
                i <= self@.len(),
                self@ == self.entries@,
                forall|k: int| 0 <= k < i ==> self@[k].0 != *o,
            decreases self@.len() - i,
        {
            if compare_outpoints(&self.entries[i].0, o) == 0 {
                assert(self@[i as int] == (*o, self.entries[i as int].1));
                return Some(self.entries[i].1);
            }
            i = i + 1;
        }
        None
    }

    /// Sets the amount of `o`, adding it in its place or replacing its amount.
    pub fn insert(&mut self, o: OutPoint, amount: u64)
        requires
            old(self).wf(),
        ensures
            final(self).wf(),
            final(self)@.contains((o, amount)),
            forall|i: int|
                0 <= i < final(self)@.len() && final(self)@[i].0 != o ==> old(self)@.contains(
                    final(self)@[i],
                ),
            forall|j: int|
                0 <= j < old(self)@.len() && old(self)@[j].0 != o ==> final(self)@.contains(
                    old(self)@[j],
                ),
    {
        let ghost s = self@;
        let mut i: usize = 0;
        while i < self.entries.len() && compare_outpoints(&self.entries[i].0, &o) < 0
            invariant
                i <= s.len(),
                self@ == s,
                self.entries@ == s,
                forall|k: int| 0 <= k < i ==> outpoint_lt(s[k].0, o),
            decreases s.len() - i,
        {
            i = i + 1;
        }
        if i < self.entries.len() && compare_outpoints(&self.entries[i].0, &o) == 0 {
            self.entries.set(i, (o, amount));
            proof {
                assert(self@ == s.update(i as int, (o, amount)));
                assert(self@[i as int] == (o, amount));
                assert forall|j: int| 0 <= j < s.len() && s[j].0 != o implies self@.contains(
                    s[j],
                ) by {
                    assert(self@[j] == s[j]);
                }
                assert forall|k: int| 0 <= k < self@.len() && self@[k].0 != o implies s.contains(
                    self@[k],
                ) by {
                    assert(s[k] == self@[k]);
                }
            }
        } else {
            proof {
                if i < s.len() {
                    lemma_outpoint_lt_irreflexive(o);
                    assert(outpoint_lt(o, s[i as int].0));
                }
            }
            self.entries.insert(i, (o, amount));
            proof {
                let t = self@;
                assert(t == s.insert(i as int, (o, amount)));
                assert(t[i as int] == (o, amount));
                assert forall|a: int, b: int| 0 <= a < b < t.len() implies outpoint_lt(
                    t[a].0,
                    t[b].0,
                ) by {
                    if b == i {
                        assert(t[a] == s[a]);
                    } else if a == i {
                        assert(t[b] == s[b - 1]);
                        if b - 1 > i {
                            lemma_outpoint_lt_transitive(o, s[i as int].0, s[b - 1].0);
                        }
                    } else if a < i && b < i {
                        assert(t[a] == s[a] && t[b] == s[b]);
                    } else if a < i {
                        assert(t[a] == s[a] && t[b] == s[b - 1]);
                    } else {
                        assert(t[a] == s[a - 1] && t[b] == s[b - 1]);
                    }
                }
                assert forall|j: int| 0 <= j < s.len() && s[j].0 != o implies t.contains(
                    s[j],
                ) by {
                    if j < i {
                        assert(t[j] == s[j]);
                    } else {
                        assert(t[j + 1] == s[j]);
                    }
                }
                assert forall|k: int| 0 <= k < t.len() && t[k].0 != o implies s.contains(
                    t[k],
                ) by {
                    if k < i {
                        assert(t[k] == s[k]);
                    } else {
                        assert(t[k] == s[k - 1]);
                    }
                }
            }
        }
    }
}

} // verus!
