//! The aggregation store: one pending delta per short code.

use crate::field::ShortCode;
use vstd::prelude::*;

verus! {

/// No two entries of `s` carry the same short code.
pub open spec fn codes_unique(s: Seq<(ShortCode, u32)>) -> bool {
    forall|i: int, j: int| 0 <= i < j < s.len() ==> s[i].0@ != s[j].0@
}

/// The mapping from short code to count that a list of entries stands for.
pub open spec fn pairs_to_map(s: Seq<(ShortCode, u32)>) -> Map<Seq<char>, u32>
    decreases s.len(),
{
    if s.len() == 0 {
        Map::empty()
    } else {
        pairs_to_map(s.drop_last()).insert(s.last().0@, s.last().1)
    }
}

/// A list of entries that names each code of `m` once, with its count, and
/// nothing else.
pub open spec fn lists_exactly(s: Seq<(ShortCode, u32)>, m: Map<Seq<char>, u32>) -> bool {
    codes_unique(s) && pairs_to_map(s) == m
}

/// The pending delta of `code` in `m`: zero where it has no entry.
pub open spec fn pending_of(m: Map<Seq<char>, u32>, code: Seq<char>) -> nat {
    if m.contains_key(code) {
        m[code] as nat
    } else {
        0
    }
}

/// `n`, or the largest `u32` where `n` does not fit.
pub open spec fn saturating(n: int) -> u32 {
    if n > u32::MAX {
        u32::MAX
    } else {
        n as u32
    }
}

/// The deltas after `count` more views of `code`.
pub open spec fn merged(m: Map<Seq<char>, u32>, code: Seq<char>, count: u32) -> Map<
    Seq<char>,
    u32,
> {
    m.insert(code, saturating(pending_of(m, code) + count))
}

/// The deltas after each `(code, count)` of `hits`, in order, starting from `m`.
pub open spec fn merge_all(m: Map<Seq<char>, u32>, hits: Seq<(Seq<char>, u32)>) -> Map<
    Seq<char>,
    u32,
>
    decreases hits.len(),
{
    if hits.len() == 0 {
        m
    } else {
        merged(merge_all(m, hits.drop_last()), hits.last().0, hits.last().1)
    }
}

/// The sum of the counts that `hits` gives for `code`.
pub open spec fn total_for(hits: Seq<(Seq<char>, u32)>, code: Seq<char>) -> nat
    decreases hits.len(),
{
    if hits.len() == 0 {
        0
    } else {
        total_for(hits.drop_last(), code) + if hits.last().0 == code {
            hits.last().1 as nat
        } else {
            0
        }
    }
}

/// Merging adds up: after any run of hits, the delta of a code is what it was
/// plus the sum of the counts given for it, held at the largest `u32`. In
/// particular, where that sum fits, it is exactly the sum.
pub proof fn hits_add_up(m: Map<Seq<char>, u32>, hits: Seq<(Seq<char>, u32)>, code: Seq<char>)
    ensures
        pending_of(merge_all(m, hits), code) == saturating(
            (pending_of(m, code) + total_for(hits, code)) as int,
        ) as nat,
        pending_of(m, code) + total_for(hits, code) <= u32::MAX ==> pending_of(
            merge_all(m, hits),
            code,
        ) == pending_of(m, code) + total_for(hits, code),
    decreases hits.len(),
{
    if hits.len() > 0 {
        hits_add_up(m, hits.drop_last(), code);
    }
}

proof fn lemma_map_lacks(s: Seq<(ShortCode, u32)>, code: Seq<char>)
    requires
        forall|i: int| 0 <= i < s.len() ==> s[i].0@ != code,
    ensures
        !pairs_to_map(s).contains_key(code),
    decreases s.len(),
{
    if s.len() > 0 {
        lemma_map_lacks(s.drop_last(), code);
    }
}

proof fn lemma_map_has(s: Seq<(ShortCode, u32)>, i: int)
    requires
        codes_unique(s),
        0 <= i < s.len(),
    ensures
        pairs_to_map(s).contains_key(s[i].0@),
        pairs_to_map(s)[s[i].0@] == s[i].1,
    decreases s.len(),
{
    if i < s.len() - 1 {
        lemma_map_has(s.drop_last(), i);
        assert(s.last().0@ != s[i].0@);
    }
}

proof fn lemma_map_update(s: Seq<(ShortCode, u32)>, i: int, p: (ShortCode, u32))
    requires
        codes_unique(s),
        0 <= i < s.len(),
        p.0@ == s[i].0@,
    ensures
        pairs_to_map(s.update(i, p)) == pairs_to_map(s).insert(p.0@, p.1),
    decreases s.len(),
{
    let t = s.update(i, p);
    if i == s.len() - 1 {
        assert(t.drop_last() == s.drop_last());
        assert(pairs_to_map(t) =~= pairs_to_map(s).insert(p.0@, p.1));
    } else {
        let s0 = s.drop_last();
        assert(t.drop_last() == s0.update(i, p));
        lemma_map_update(s0, i, p);
        assert(s.last().0@ != p.0@);
        assert(pairs_to_map(t) =~= pairs_to_map(s).insert(p.0@, p.1));
    }
}

/// The pending deltas, one entry per short code.
///
/// Only the worker that owns it reads or changes it, so it needs no lock.
pub struct HitStore {
    entries: Vec<(ShortCode, u32)>,
}

impl View for HitStore {
    type V = Map<Seq<char>, u32>;

    closed spec fn view(&self) -> Map<Seq<char>, u32> {
        pairs_to_map(self.entries@)
    }
}

impl HitStore {
    /// The entries name each code at most once.
    pub closed spec fn wf(&self) -> bool {
        codes_unique(self.entries@)
    }

    /// An empty store.
    pub fn new() -> (r: HitStore)
        ensures
            r.wf(),
            r@ == Map::<Seq<char>, u32>::empty(),
    {
        HitStore { entries: Vec::new() }
    }

    /// The number of codes with a pending delta.
    pub fn len(&self) -> (r: usize)
        requires
            self.wf(),
        ensures
            r == self@.dom().len(),
    {
        proof {
            lemma_dom_len(self.entries@);
        }
        self.entries.len()
    }

    /// True when no delta is pending.
    pub fn is_empty(&self) -> (r: bool)
        requires
            self.wf(),
        ensures
            r == (self@ == Map::<Seq<char>, u32>::empty()),
    {
        proof {
            lemma_dom_len(self.entries@);
            if self.entries@.len() > 0 {
                lemma_map_has(self.entries@, 0);
                assert(self@.contains_key(self.entries@[0].0@));
            }
            if self.entries@.len() == 0 {
                assert(self@ =~= Map::<Seq<char>, u32>::empty());
            }
        }
        self.entries.len() == 0
    }

    /// The pending delta of `code`: zero where none is pending.
    pub fn pending(&self, code: &ShortCode) -> (r: u32)
        requires
            self.wf(),
        ensures
            r == pending_of(self@, code@),
    {
        let n = self.entries.len();
        let mut i: usize = 0;
        while i < n
            invariant
                n == self.entries@.len(),
                codes_unique(self.entries@),
                forall|j: int| 0 <= j < i ==> self.entries@[j].0@ != code@,
            decreases n - i,
        {
            if self.entries[i].0 == *code {
                proof {
                    lemma_map_has(self.entries@, i as int);
                }
                return self.entries[i].1;
            }
            i = i + 1;
        }
        proof {
            lemma_map_lacks(self.entries@, code@);
        }
        0
    }

    /// Adds `count` views of `code`: the delta of `code` grows by `count`, or
    /// is created with `count` where it had none. A delta that would pass the
    /// largest `u32` stays at that value.
    pub fn merge(&mut self, code: ShortCode, count: u32)
        requires
            old(self).wf(),
        ensures
            final(self).wf(),
            final(self)@ == merged(old(self)@, code@, count),
    {
        let n = self.entries.len();
        let mut i: usize = 0;
        while i < n
            invariant
                n == self.entries@.len(),
                codes_unique(self.entries@),
                self.entries@ == old(self).entries@,
                forall|j: int| 0 <= j < i ==> self.entries@[j].0@ != code@,
            decreases n - i,
        {
            if self.entries[i].0 == code {
                let total = self.entries[i].1.saturating_add(count);
                proof {
                    lemma_map_has(self.entries@, i as int);
                    lemma_map_update(self.entries@, i as int, (code, total));
                    assert(codes_unique(self.entries@.update(i as int, (code, total))));
                }
                self.entries.set(i, (code, total));
                return;
            }
            i = i + 1;
        }
        proof {
            lemma_map_lacks(self.entries@, code@);
            assert(self.entries@.push((code, count)).drop_last() == self.entries@);
        }
        self.entries.push((code, count));
    }

    /// Takes every pending delta out at once: the result lists each code that
    /// had a delta once, with that delta, and the store is left empty.
    pub fn drain(&mut self) -> (r: Vec<(ShortCode, u32)>)
        requires
            old(self).wf(),
        ensures
            final(self).wf(),
            lists_exactly(r@, old(self)@),
            final(self)@ == Map::<Seq<char>, u32>::empty(),
    {
        let mut taken: Vec<(ShortCode, u32)> = Vec::new();
        core::mem::swap(&mut self.entries, &mut taken);
        taken
    }
}

proof fn lemma_dom_len(s: Seq<(ShortCode, u32)>)
    requires
        codes_unique(s),
    ensures
        pairs_to_map(s).dom().len() == s.len(),
        pairs_to_map(s).dom().finite(),
    decreases s.len(),
{
    if s.len() > 0 {
        lemma_dom_len(s.drop_last());
        lemma_map_lacks(s.drop_last(), s.last().0@);
    }
}

} // verus!
