use vstd::prelude::*;

verus! {

/// Immutable-snapshot map from source identity to the highest offset durably
/// observed for that source. It is the resume cursor of the pipeline and the
/// comparison target for the "events to catch up" figure.
pub struct OffsetMap {
    entries: Vec<(String, u64)>,
}

/// Sources are pairwise distinct.
pub open spec fn unique_sources(entries: Seq<(String, u64)>) -> bool {
    forall|i: int, j: int|
        0 <= i < j < entries.len() ==> (#[trigger] entries[i]).0@ != (#[trigger] entries[j]).0@
}

/// The mapping an entry list stands for; a later entry for the same source
/// would win, but well-formed maps never hold two entries for one source.
pub closed spec fn map_of(entries: Seq<(String, u64)>) -> Map<Seq<char>, u64>
    decreases entries.len(),
{
    if entries.len() == 0 {
        Map::empty()
    } else {
        map_of(entries.drop_last()).insert(entries.last().0@, entries.last().1)
    }
}

/// `m` updated so that `k` maps to at least `v`: an existing larger offset is
/// kept, a smaller or missing one is raised to `v`. Offsets therefore never
/// move backwards.
pub open spec fn merged_at(m: Map<Seq<char>, u64>, k: Seq<char>, v: u64) -> Map<Seq<char>, u64> {
    if m.dom().contains(k) && m[k] >= v {
        m
    } else {
        m.insert(k, v)
    }
}

/// Union of two offset maps, keeping the larger offset per source.
pub open spec fn union_max(a: Map<Seq<char>, u64>, b: Map<Seq<char>, u64>) -> Map<
    Seq<char>,
    u64,
> {
    Map::new(
        |k: Seq<char>| a.dom().contains(k) || b.dom().contains(k),
        |k: Seq<char>|
            if !a.dom().contains(k) {
                b[k]
            } else if !b.dom().contains(k) {
                a[k]
            } else if a[k] >= b[k] {
                a[k]
            } else {
                b[k]
            },
    )
}

/// Sum of `f` over all entries of a finite map.
pub open spec fn map_sum(m: Map<Seq<char>, u64>, f: spec_fn(Seq<char>, u64) -> int) -> int
    decreases m.dom().len() when m.dom().finite()
{
    if m.dom().finite() && !m.dom().is_empty() {
        let k = m.dom().choose();
        f(k, m[k]) + map_sum(m.remove(k), f)
    } else {
        0
    }
}

/// How many events `v` at source `k` means, beyond what `b` accounts for:
/// all `v + 1` events of a zero-based stream when `b` has never seen the
/// source, otherwise only the offsets past `b`'s.
pub open spec fn lag_wrt(b: Map<Seq<char>, u64>) -> spec_fn(Seq<char>, u64) -> int {
    |k: Seq<char>, v: u64|
        if b.dom().contains(k) {
            if v > b[k] {
                v - b[k]
            } else {
                0
            }
        } else {
            v + 1
        }
}

/// Total number of events a map accounts for: offsets are zero-based, so a
/// source whose highest offset is `v` has seen `v + 1` events.
pub open spec fn spec_size(m: Map<Seq<char>, u64>) -> int {
    map_sum(m, |k: Seq<char>, v: u64| v + 1)
}

/// Number of events present in `a` but not accounted for in `b`.
pub open spec fn spec_size_delta(a: Map<Seq<char>, u64>, b: Map<Seq<char>, u64>) -> int {
    map_sum(a, lag_wrt(b))
}

/// Splitting a finite map's sum at any contained key.
pub proof fn lemma_map_sum_remove(
    m: Map<Seq<char>, u64>,
    f: spec_fn(Seq<char>, u64) -> int,
    k: Seq<char>,
)
    requires
        m.dom().finite(),
        m.dom().contains(k),
    ensures
        map_sum(m, f) == f(k, m[k]) + map_sum(m.remove(k), f),
    decreases m.dom().len(),
{
    let k0 = m.dom().choose();
    if k0 == k {
    } else {
        lemma_map_sum_remove(m.remove(k0), f, k);
        lemma_map_sum_remove(m.remove(k), f, k0);
        assert(m.remove(k0).remove(k) =~= m.remove(k).remove(k0));
        assert(map_sum(m, f) == f(k0, m[k0]) + map_sum(m.remove(k0), f));
    }
}

/// A fresh entry adds exactly its own contribution to the sum.
pub proof fn lemma_map_sum_insert(
    m: Map<Seq<char>, u64>,
    f: spec_fn(Seq<char>, u64) -> int,
    k: Seq<char>,
    v: u64,
)
    requires
        m.dom().finite(),
        !m.dom().contains(k),
    ensures
        map_sum(m.insert(k, v), f) == map_sum(m, f) + f(k, v),
{
    lemma_map_sum_remove(m.insert(k, v), f, k);
    assert(m.insert(k, v).remove(k) =~= m);
}

/// What `map_of` holds, for a well-formed entry list: exactly the listed
/// sources, each at its listed offset, and finitely many of them.
proof fn lemma_map_of_props(entries: Seq<(String, u64)>)
    requires
        unique_sources(entries),
    ensures
        map_of(entries).dom().finite(),
        map_of(entries).dom().len() == entries.len(),
        forall|i: int|
            0 <= i < entries.len() ==> map_of(entries).dom().contains(
                (#[trigger] entries[i]).0@,
            ) && map_of(entries)[entries[i].0@] == entries[i].1,
        forall|k: Seq<char>|
            #[trigger] map_of(entries).dom().contains(k) ==> exists|i: int|
                0 <= i < entries.len() && (#[trigger] entries[i]).0@ == k,
    decreases entries.len(),
{
    if entries.len() > 0 {
        lemma_map_of_props(entries.drop_last());
        assert(forall|i: int|
            0 <= i < entries.len() - 1 ==> entries.drop_last()[i] == entries[i]);
        assert(!map_of(entries.drop_last()).dom().contains(entries.last().0@));
        assert(forall|k: Seq<char>|
            #[trigger] map_of(entries).dom().contains(k) && k != entries.last().0@
                ==> map_of(entries.drop_last()).dom().contains(k));
    }
}

/// Raising one source's offset in the entry list raises it in the map.
proof fn lemma_map_of_update(entries: Seq<(String, u64)>, i: int, e: (String, u64))
    requires
        unique_sources(entries),
        0 <= i < entries.len(),
        entries[i].0@ == e.0@,
    ensures
        map_of(entries.update(i, e)) == map_of(entries).insert(e.0@, e.1),
    decreases entries.len(),
{
    lemma_map_of_props(entries);
    let upd = entries.update(i, e);
    if i == entries.len() - 1 {
        assert(upd.drop_last() =~= entries.drop_last());
        assert(map_of(entries).insert(e.0@, e.1) =~= map_of(entries.drop_last()).insert(
            e.0@,
            e.1,
        ));
    } else {
        assert(upd.drop_last() =~= entries.drop_last().update(i, e));
        lemma_map_of_update(entries.drop_last(), i, e);
        assert(upd.last() == entries.last());
        assert(entries.last().0@ != e.0@);
        assert(map_of(entries.drop_last()).insert(e.0@, e.1).insert(
            entries.last().0@,
            entries.last().1,
        ) =~= map_of(entries).insert(e.0@, e.1));
    }
}

impl OffsetMap {
    /// One entry per source.
    pub closed spec fn wf(self) -> bool {
        unique_sources(self.entries@)
    }

    /// The empty map: no source observed yet.
    pub fn new() -> (m: OffsetMap)
        ensures
            m.wf(),
            m@ == Map::<Seq<char>, u64>::empty(),
    {
        OffsetMap { entries: Vec::new() }
    }

    /// The highest offset recorded for `source`, if any.
    pub fn get(&self, source: &String) -> (r: Option<u64>)
        requires
            self.wf(),
        ensures
            r is Some <==> self@.dom().contains(source@),
            r matches Some(v) ==> v == self@[source@],
    {
        proof {
            lemma_map_of_props(self.entries@);
        }
        let n = self.entries.len();
        for i in 0..n
            invariant
                n == self.entries@.len(),
                self.wf(),
                forall|j: int| 0 <= j < i ==> (#[trigger] self.entries@[j]).0@ != source@,
                self@ == map_of(self.entries@),
                map_of(self.entries@).dom().finite(),
                forall|jj: int|
                    0 <= jj < n ==> map_of(self.entries@).dom().contains(
                        (#[trigger] self.entries@[jj]).0@,
                    ) && map_of(self.entries@)[self.entries@[jj].0@] == self.entries@[jj].1,
                forall|k: Seq<char>|
                    #[trigger] map_of(self.entries@).dom().contains(k) ==> exists|jj: int|
                        0 <= jj < n && (#[trigger] self.entries@[jj]).0@ == k,
        {
            if self.entries[i].0 == *source {
                return Some(self.entries[i].1);
            }
        }
        None
    }

    /// Whether an event at `offset` from `source` lies strictly after this
    /// resume cursor: a subscription resumed from the cursor must deliver
    /// exactly these events, and one that was already written must be
    /// skipped.
    pub fn admits(&self, source: &String, offset: u64) -> (r: bool)
        requires
            self.wf(),
        ensures
            r == (self@.dom().contains(source@) ==> offset > self@[source@]),
    {
        match self.get(source) {
            Some(done) => offset > done,
            None => true,
        }
    }

    /// Record that `source` has durably reached `offset`, never lowering an
    /// already recorded offset: progress is monotone.
    pub fn update_max(&mut self, source: &String, offset: u64)
        requires
            old(self).wf(),
        ensures
            final(self).wf(),
            final(self)@ == merged_at(old(self)@, source@, offset),
    {
        proof {
            lemma_map_of_props(self.entries@);
        }
        let n = self.entries.len();
        for i in 0..n
            invariant
                n == self.entries@.len(),
                self.wf(),
                self == old(self),
                forall|j: int| 0 <= j < i ==> (#[trigger] self.entries@[j]).0@ != source@,
                forall|jj: int|
                    0 <= jj < n ==> map_of(self.entries@).dom().contains(
                        (#[trigger] self.entries@[jj]).0@,
                    ) && map_of(self.entries@)[self.entries@[jj].0@] == self.entries@[jj].1,
        {
            if self.entries[i].0 == *source {
                if offset > self.entries[i].1 {
                    let ghost before = self.entries@;
                    self.entries.set(i, (source.clone(), offset));
                    proof {
                        assert(forall|a: int, b: int|
                            0 <= a < b < self.entries@.len() ==> (#[trigger] self.entries@[a]).0@
                                != (#[trigger] self.entries@[b]).0@);
                        lemma_map_of_update(before, i as int, (*source, offset));
                    }
                }
                return ;
            }
        }
        proof {
            lemma_map_of_props(self.entries@);
            assert(!self@.dom().contains(source@));
        }
        let ghost before = self.entries@;
        self.entries.push((source.clone(), offset));
        proof {
            assert(self.entries@.drop_last() =~= before);
            assert(forall|a: int, b: int|
                0 <= a < b < self.entries@.len() ==> (#[trigger] self.entries@[a]).0@
                    != (#[trigger] self.entries@[b]).0@);
        }
    }

    /// Merge `other` in, keeping the larger offset per source.
    pub fn merge(&mut self, other: &OffsetMap)
        requires
            old(self).wf(),
            other.wf(),
        ensures
            final(self).wf(),
            final(self)@ == union_max(old(self)@, other@),
    {
        let n = other.entries.len();
        proof {
            lemma_map_of_props(other.entries@);
        }
        for i in 0..n
            invariant
                n == other.entries@.len(),
                other.wf(),
                self.wf(),
                other@ == map_of(other.entries@),
                self@ == union_max(old(self)@, map_of(other.entries@.take(i as int))),
                forall|jj: int|
                    0 <= jj < n ==> map_of(other.entries@).dom().contains(
                        (#[trigger] other.entries@[jj]).0@,
                    ) && map_of(other.entries@)[other.entries@[jj].0@] == other.entries@[jj].1,
        {
            let ghost prefix = other.entries@.take(i as int);
            self.update_max(&other.entries[i].0, other.entries[i].1);
            proof {
                let next = other.entries@.take(i as int + 1);
                assert(next.drop_last() =~= prefix);
                assert(unique_sources(prefix));
                lemma_map_of_props(prefix);
                assert(!map_of(prefix).dom().contains(other.entries@[i as int].0@));
                assert(merged_at(
                    union_max(old(self)@, map_of(prefix)),
                    other.entries@[i as int].0@,
                    other.entries@[i as int].1,
                ) =~= union_max(old(self)@, map_of(next)));
            }
        }
        proof {
            assert(other.entries@.take(n as int) =~= other.entries@);
        }
    }

    /// Total number of events this map accounts for, for progress reporting.
    pub fn size(&self) -> (n: u128)
        requires
            self.wf(),
        ensures
            n == spec_size(self@),
    {
        proof {
            lemma_map_of_props(self.entries@);
        }
        let ghost f = |k: Seq<char>, v: u64| v + 1int;
        let len = self.entries.len();
        let mut n: u128 = 0;
        for i in 0..len
            invariant
                len == self.entries@.len(),
                self.wf(),
                n == map_sum(map_of(self.entries@.take(i as int)), f),
                n <= i * 0x1_0000_0000_0000_0000,
                f == (|k: Seq<char>, v: u64| v + 1int),
        {
            let ghost prefix = self.entries@.take(i as int);
            proof {
                let next = self.entries@.take(i as int + 1);
                assert(next.drop_last() =~= prefix);
                assert(unique_sources(prefix));
                lemma_map_of_props(prefix);
                assert(!map_of(prefix).dom().contains(self.entries@[i as int].0@));
                lemma_map_sum_insert(map_of(prefix), f, self.entries@[i as int].0@,
                    self.entries@[i as int].1);
                assert((i + 1) * 0x1_0000_0000_0000_0000 == i * 0x1_0000_0000_0000_0000
                    + 0x1_0000_0000_0000_0000) by (nonlinear_arith);
                assert(len * 0x1_0000_0000_0000_0000 <= 0xffff_ffff_ffff_ffff
                    * 0x1_0000_0000_0000_0000) by (nonlinear_arith)
                    requires len <= 0xffff_ffff_ffff_ffffu64,
                ;
            }
            n = n + self.entries[i].1 as u128 + 1;
        }
        proof {
            assert(self.entries@.take(len as int) =~= self.entries@);
        }
        n
    }

    /// Number of events this map accounts for that `other` does not: the
    /// "events to catch up" figure reported at startup.
    pub fn size_delta(&self, other: &OffsetMap) -> (n: u128)
        requires
            self.wf(),
            other.wf(),
        ensures
            n == spec_size_delta(self@, other@),
    {
        proof {
            lemma_map_of_props(self.entries@);
        }
        let ghost f = lag_wrt(other@);
        let len = self.entries.len();
        let mut n: u128 = 0;
        for i in 0..len
            invariant
                len == self.entries@.len(),
                self.wf(),
                other.wf(),
                n == map_sum(map_of(self.entries@.take(i as int)), f),
                n <= i * 0x1_0000_0000_0000_0000,
                f == lag_wrt(other@),
        {
            let ghost prefix = self.entries@.take(i as int);
            proof {
                let next = self.entries@.take(i as int + 1);
                assert(next.drop_last() =~= prefix);
                assert(unique_sources(prefix));
                lemma_map_of_props(prefix);
                assert(!map_of(prefix).dom().contains(self.entries@[i as int].0@));
                lemma_map_sum_insert(map_of(prefix), f, self.entries@[i as int].0@,
                    self.entries@[i as int].1);
                assert((i + 1) * 0x1_0000_0000_0000_0000 == i * 0x1_0000_0000_0000_0000
                    + 0x1_0000_0000_0000_0000) by (nonlinear_arith);
                assert(len * 0x1_0000_0000_0000_0000 <= 0xffff_ffff_ffff_ffff
                    * 0x1_0000_0000_0000_0000) by (nonlinear_arith)
                    requires len <= 0xffff_ffff_ffff_ffffu64,
                ;
            }
            let v = self.entries[i].1;
            let term: u128 = match other.get(&self.entries[i].0) {
                Some(bv) => if v > bv {
                    (v - bv) as u128
                } else {
                    0
                },
                None => v as u128 + 1,
            };
            n = n + term;
        }
        proof {
            assert(self.entries@.take(len as int) =~= self.entries@);
        }
        n
    }
}

impl View for OffsetMap {
    type V = Map<Seq<char>, u64>;

    closed spec fn view(&self) -> Map<Seq<char>, u64> {
        map_of(self.entries@)
    }
}

} // verus!
