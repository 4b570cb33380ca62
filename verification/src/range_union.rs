//! A union of half-open line ranges, keyed by start line.
use vstd::prelude::*;
use std::collections::BTreeMap;
use std::ops::Range;
use vstd::std_specs::iter::IteratorSpec;
use vstd::std_specs::cmp::OrdSpec;

verus! {

broadcast use {vstd::std_specs::btree::group_btree_axioms, vstd::laws_cmp::group_laws_cmp};

/// Whether point `p` lies in one of the half-open intervals `[s, e)` of `s`.
pub open spec fn seq_covers(s: Seq<(usize, usize)>, p: int) -> bool {
    exists|i: int| 0 <= i < s.len() && #[trigger] s[i].0 <= p && p < s[i].1
}

/// Whether point `p` lies in one of the intervals `[start, m[start])` of the map.
pub open spec fn map_covers(m: Map<usize, usize>, p: int) -> bool {
    exists|k: usize| #[trigger] m.contains_key(k) && k <= p && p < m[k]
}

/// The entries of `s` have strictly increasing starts.
pub open spec fn strictly_sorted(s: Seq<(usize, usize)>) -> bool {
    forall|i: int, j: int| 0 <= i < j < s.len() ==> s[i].0 < s[j].0
}

/// `s` lists every entry of `m` exactly once, in increasing order of start.
pub open spec fn is_sorted_listing(s: Seq<(usize, usize)>, m: Map<usize, usize>) -> bool {
    &&& strictly_sorted(s)
    &&& forall|i: int| 0 <= i < s.len() ==> #[trigger] m.contains_key(s[i].0) && m[s[i].0] == s[i].1
    &&& forall|k: usize| #[trigger] m.contains_key(k) ==> exists|i: int| 0 <= i < s.len() && s[i].0 == k
}

/// The end that `push(start..end)` records for `start` in `m`.
pub open spec fn pushed_end(m: Map<usize, usize>, start: usize, end: usize) -> usize {
    if m.contains_key(start) && m[start] > end { m[start] } else { end }
}

/// The ranges produced from the remaining sorted entries `es` once a range
/// `[start, reach)` is open: an entry whose start is at most `gap` past the
/// reach joins the open range, any other entry closes it and opens its own.
pub open spec fn merge_from(es: Seq<(usize, usize)>, start: usize, reach: usize, gap: usize) -> Seq<(usize, usize)>
    decreases es.len(),
{
    if es.len() == 0 {
        seq![(start, reach)]
    } else if es[0].0 <= reach + gap {
        merge_from(es.drop_first(), start, if es[0].1 > reach { es[0].1 } else { reach }, gap)
    } else {
        seq![(start, reach)] + merge_from(es.drop_first(), es[0].0, es[0].1, gap)
    }
}

/// `e` is the farthest end recorded in `m`.
pub open spec fn is_farthest_end(m: Map<usize, usize>, e: usize) -> bool {
    &&& exists|k: usize| #[trigger] m.contains_key(k) && m[k] == e
    &&& forall|k: usize| #[trigger] m.contains_key(k) ==> m[k] <= e
}

/// The merged ranges of the sorted entries `es`, joining entries separated by at most `gap`.
pub open spec fn merged(es: Seq<(usize, usize)>, gap: usize) -> Seq<(usize, usize)> {
    if es.len() == 0 {
        Seq::empty()
    } else {
        merge_from(es.drop_first(), es[0].0, es[0].1, gap)
    }
}

#[derive(Debug, Clone)]
pub struct RangeUnion {
    ends_by_start: BTreeMap<usize, usize>,
}

impl View for RangeUnion {
    type V = Map<usize, usize>;

    /// Each recorded start line mapped to the farthest end pushed with it.
    closed spec fn view(&self) -> Map<usize, usize> {
        self.ends_by_start@
    }
}

impl Default for RangeUnion {
    fn default() -> (r: Self)
        ensures
            r@ == Map::<usize, usize>::empty(),
    {
        RangeUnion { ends_by_start: BTreeMap::new() }
    }
}

impl RangeUnion {
    /// Record `range`; a start already present keeps the larger of the two ends.
    pub fn push(&mut self, range: Range<usize>)
        ensures
            final(self)@ == old(self)@.insert(range.start, pushed_end(old(self)@, range.start, range.end)),
    {
        let start = range.start;
        let end = range.end;
        let new_end = match self.ends_by_start.get(&start) {
            Some(e) => if *e > end { *e } else { end },
            None => end,
        };
        self.ends_by_start.insert(start, new_end);
    }

    /// The farthest end of any range, or `None` when there are no ranges.
    pub open spec fn end_spec(&self) -> Option<usize> {
        if self@.len() == 0 {
            None
        } else {
            Some(choose|e: usize| is_farthest_end(self@, e))
        }
    }

    /// The farthest end of any range, or `None` when there are no ranges.
    pub fn end(&self) -> (r: Option<usize>)
        ensures
            r == self.end_spec(),
            r is None <==> self@.len() == 0,
            r matches Some(e) ==> is_farthest_end(self@, e),
    {
        let entries = self.sorted_entries();
        if entries.len() == 0 {
            proof {
                if self@.len() > 0 {
                    let k = self@.dom().choose();
                    assert(self@.dom().contains(k));
                }
            }
            return None;
        }
        let mut best = entries[0].1;
        let mut i: usize = 1;
        while i < entries.len()
            invariant
                1 <= i <= entries@.len(),
                is_sorted_listing(entries@, self@),
                exists|j: int| 0 <= j < i && entries@[j].1 == best,
                forall|j: int| 0 <= j < i ==> (#[trigger] entries@[j]).1 <= best,
            decreases entries.len() - i,
        {
            if entries[i].1 > best {
                best = entries[i].1;
            }
            i = i + 1;
        }
        proof {
            let j = choose|j: int| 0 <= j < entries@.len() && entries@[j].1 == best;
            assert(self@.contains_key(entries@[j].0) && self@[entries@[j].0] == best);
            assert forall|k: usize| #[trigger] self@.contains_key(k) implies self@[k] <= best by {
                let j2 = choose|j2: int| 0 <= j2 < entries@.len() && entries@[j2].0 == k;
                assert(entries@[j2].1 <= best);
            }
            assert(self@.dom().contains(entries@[0].0));
            assert(self@.len() > 0);
            assert(is_farthest_end(self@, best));
            let e = choose|e: usize| is_farthest_end(self@, e);
            let ke = choose|k: usize| #[trigger] self@.contains_key(k) && self@[k] == e;
            assert(self@[ke] <= best);
            assert(self@[entries@[j].0] <= e);
        }
        Some(best)
    }

    pub fn is_empty(&self) -> (r: bool)
        ensures
            r == (self@.len() == 0),
    {
        self.ends_by_start.is_empty()
    }
}


impl RangeUnion {
    /// Record each range of `ranges` in turn.
    pub fn extend(&mut self, ranges: Vec<Range<usize>>)
        ensures
            final(self)@ == pushed_all(old(self)@, ranges@),
    {
        let mut i: usize = 0;
        let ghost orig = self@;
        while i < ranges.len()
            invariant
                0 <= i <= ranges.len(),
                self@ == pushed_all(orig, ranges@.take(i as int)),
            decreases ranges.len() - i,
        {
            let r = ranges[i].start..ranges[i].end;
            assert(ranges@.take(i + 1).drop_last() == ranges@.take(i as int));
            self.push(r);
            i = i + 1;
        }
        assert(ranges@.take(ranges.len() as int) == ranges@);
    }

    /// The entries in increasing order of start.
    fn sorted_entries(&self) -> (r: Vec<(usize, usize)>)
        ensures
            is_sorted_listing(r@, self@),
    {
        let mut out: Vec<(usize, usize)> = Vec::new();
        let m = &self.ends_by_start;
        let iter = m.iter();
        let ghost all = iter.remaining();
        assert(vstd::std_specs::btree::key_obeys_cmp_spec::<usize>());
        assert(vstd::std_specs::btree::increasing_seq(all.map_values(|kv: (&usize, &usize)| *kv.0)));
        assert(forall|i: int, j: int| 0 <= i < j < all.len() ==> *all[i].0 < *all[j].0) by {
            assert forall|i: int, j: int| 0 <= i < j < all.len() implies *all[i].0 < *all[j].0 by {
                let keys = all.map_values(|kv: (&usize, &usize)| *kv.0);
                assert(keys[i] == *all[i].0);
                assert(keys[j] == *all[j].0);
                assert(keys[i].cmp_spec(&keys[j]) is Less);
            }
        }
        for kv in it: iter
            invariant
                it.seq() == all,
                out@.len() == it.index(),
                forall|i: int| 0 <= i < it.index() ==> out@[i] == (*all[i].0, *all[i].1),
        {
            out.push((*kv.0, *kv.1));
        }
        proof {
            assert forall|k: usize| #[trigger] m@.contains_key(k) implies exists|i: int| 0 <= i < out@.len() && out@[i].0 == k by {
                assert(all.contains((&k, &m@[k])));
                let i = choose|i: int| 0 <= i < all.len() && all[i] == (&k, &m@[k]);
                assert(out@[i].0 == k);
            }
        }
        out
    }

    /// The merged ranges, joining ranges separated by at most `gap_size` lines.
    pub fn iter_filling_gaps(&self, gap_size: usize) -> (r: RangeUnionIterator)
        ensures
            is_sorted_listing(r.pending(), self@),
            r.fill_gaps() == gap_size,
    {
        let entries = self.sorted_entries();
        let r = RangeUnionIterator { entries, index: 0, fill_gaps: gap_size };
        assert(r.pending() == entries@);
        r
    }

    /// The merged ranges, joining only overlapping or touching ranges.
    pub fn iter(&self) -> (r: RangeUnionIterator)
        ensures
            is_sorted_listing(r.pending(), self@),
            r.fill_gaps() == 0,
    {
        self.iter_filling_gaps(0)
    }
}

impl RangeUnion {
    /// All merged ranges, in order, joining ranges separated by at most `gap_size` lines.
    pub fn merged_ranges(&self, gap_size: usize) -> (r: Vec<Range<usize>>)
        ensures
            exists|listing: Seq<(usize, usize)>| #[trigger] is_sorted_listing(listing, self@) && {
                let m = merged(listing, gap_size);
                &&& r@.len() == m.len()
                &&& forall|i: int| 0 <= i < m.len() ==> (#[trigger] r@[i]).start == m[i].0 && r@[i].end == m[i].1
            },
    {
        let mut it = self.iter_filling_gaps(gap_size);
        let ghost listing = it.pending();
        let ghost all = merged(listing, gap_size);
        let mut out: Vec<Range<usize>> = Vec::new();
        proof { lemma_merged_len(it.pending(), gap_size); }
        loop
            invariant
                it.fill_gaps() == gap_size,
                is_sorted_listing(listing, self@),
                all == merged(listing, gap_size),
                out@.len() + merged(it.pending(), gap_size).len() == all.len(),
                merged(it.pending(), gap_size) == all.skip(out@.len() as int),
                forall|i: int| 0 <= i < out@.len() ==> (#[trigger] out@[i]).start == all[i].0 && out@[i].end == all[i].1,
            ensures
                out@.len() == all.len(),
                forall|i: int| 0 <= i < out@.len() ==> (#[trigger] out@[i]).start == all[i].0 && out@[i].end == all[i].1,
            decreases merged(it.pending(), gap_size).len(),
        {
            let ghost before = merged(it.pending(), gap_size);
            match it.next() {
                Some(r) => {
                    let ghost k = out@.len() as int;
                    assert(before[0] == all[k]);
                    out.push(r);
                    assert(before.drop_first() == all.skip(k + 1));
                },
                None => {
                    break;
                },
            }
        }
        out
    }
}

/// Every merged range starts at the start of one of the entries.
pub proof fn law_merged_starts_are_pushed_starts(es: Seq<(usize, usize)>, m: Map<usize, usize>, gap: usize)
    requires
        is_sorted_listing(es, m),
    ensures
        forall|j: int| 0 <= j < merged(es, gap).len() ==> m.contains_key(#[trigger] merged(es, gap)[j].0),
{
    if es.len() > 0 {
        lemma_merge_from_starts(es.drop_first(), es[0].0, es[0].1, gap);
        assert forall|j: int| 0 <= j < merged(es, gap).len() implies m.contains_key(#[trigger] merged(es, gap)[j].0) by {
            let s = merged(es, gap)[j].0;
            if s != es[0].0 {
                let i = choose|i: int| 0 <= i < es.drop_first().len() && es.drop_first()[i].0 == s;
                assert(es[i + 1].0 == s);
            }
        }
    }
}

proof fn lemma_merge_from_starts(es: Seq<(usize, usize)>, start: usize, reach: usize, gap: usize)
    ensures
        forall|j: int| 0 <= j < merge_from(es, start, reach, gap).len() ==> {
            let s = #[trigger] merge_from(es, start, reach, gap)[j].0;
            s == start || exists|i: int| 0 <= i < es.len() && es[i].0 == s
        },
    decreases es.len(),
{
    let out = merge_from(es, start, reach, gap);
    if es.len() > 0 {
        let rest = es.drop_first();
        if es[0].0 <= reach + gap {
            let r2 = if es[0].1 > reach { es[0].1 } else { reach };
            lemma_merge_from_starts(rest, start, r2, gap);
            assert(out == merge_from(rest, start, r2, gap));
            assert forall|j: int| 0 <= j < out.len() implies {
                let s = #[trigger] out[j].0;
                s == start || exists|i: int| 0 <= i < es.len() && es[i].0 == s
            } by {
                let s = out[j].0;
                if s != start {
                    let i = choose|i: int| 0 <= i < rest.len() && rest[i].0 == s;
                    assert(es[i + 1].0 == s);
                }
            }
        } else {
            lemma_merge_from_starts(rest, es[0].0, es[0].1, gap);
            let tail = merge_from(rest, es[0].0, es[0].1, gap);
            assert(out == seq![(start, reach)] + tail);
            assert forall|j: int| 0 <= j < out.len() implies {
                let s = #[trigger] out[j].0;
                s == start || exists|i: int| 0 <= i < es.len() && es[i].0 == s
            } by {
                if j > 0 {
                    assert(out[j] == tail[j - 1]);
                    let s = out[j].0;
                    if s != es[0].0 {
                        let i = choose|i: int| 0 <= i < rest.len() && rest[i].0 == s;
                        assert(es[i + 1].0 == s);
                    } else {
                        assert(es[0].0 == s);
                    }
                }
            }
        }
    }
}

/// The map after pushing each range of `rs` in order.
pub open spec fn pushed_all(m: Map<usize, usize>, rs: Seq<Range<usize>>) -> Map<usize, usize>
    decreases rs.len(),
{
    if rs.len() == 0 {
        m
    } else {
        let prev = pushed_all(m, rs.drop_last());
        let r = rs.last();
        prev.insert(r.start, pushed_end(prev, r.start, r.end))
    }
}

proof fn lemma_merge_from_len(es: Seq<(usize, usize)>, start: usize, reach: usize, gap: usize)
    ensures
        merge_from(es, start, reach, gap).len() >= 1,
    decreases es.len(),
{
    if es.len() > 0 {
        if es[0].0 <= reach + gap {
            lemma_merge_from_len(es.drop_first(), start, if es[0].1 > reach { es[0].1 } else { reach }, gap);
        } else {
            lemma_merge_from_len(es.drop_first(), es[0].0, es[0].1, gap);
        }
    }
}

proof fn lemma_merged_len(es: Seq<(usize, usize)>, gap: usize)
    ensures
        es.len() == 0 <==> merged(es, gap).len() == 0,
{
    if es.len() > 0 {
        lemma_merge_from_len(es.drop_first(), es[0].0, es[0].1, gap);
    }
}

/// Walks the merged ranges of a [`RangeUnion`] in increasing order.
pub struct RangeUnionIterator {
    entries: Vec<(usize, usize)>,
    index: usize,
    fill_gaps: usize,
}

impl RangeUnionIterator {
    /// The entries not yet consumed, in increasing order of start.
    pub closed spec fn pending(&self) -> Seq<(usize, usize)> {
        if self.index <= self.entries@.len() {
            self.entries@.skip(self.index as int)
        } else {
            Seq::empty()
        }
    }

    /// The largest gap between two ranges that still joins them.
    pub closed spec fn fill_gaps(&self) -> usize {
        self.fill_gaps
    }

    /// The next merged range: it starts at the first pending entry and takes
    /// in every following entry that starts at most `fill_gaps` past the
    /// farthest end taken in so far.
    pub fn next(&mut self) -> (r: Option<Range<usize>>)
        ensures
            final(self).fill_gaps() == old(self).fill_gaps(),
            merged(old(self).pending(), old(self).fill_gaps()).len() == 0 ==> r is None && final(self).pending().len() == 0,
            merged(old(self).pending(), old(self).fill_gaps()).len() > 0 ==> {
                let m = merged(old(self).pending(), old(self).fill_gaps());
                &&& r matches Some(range) && range.start == m[0].0 && range.end == m[0].1
                &&& merged(final(self).pending(), final(self).fill_gaps()) == m.drop_first()
            },
    {
        proof { lemma_merged_len(self.pending(), self.fill_gaps); }
        if self.index >= self.entries.len() {
            return None;
        }
        let ghost es = self.pending();
        let ghost gap = self.fill_gaps;
        let first = self.entries[self.index];
        let first_start = first.0;
        let mut farthest_end: usize = first.1;
        self.index = self.index + 1;
        assert(self.pending() == es.drop_first());
        loop
            invariant
                self.index <= self.entries@.len(),
                self.fill_gaps == gap,
                self.entries == old(self).entries,
                merged(es, gap) == merge_from(self.pending(), first_start, farthest_end, gap),
            ensures
                self.index <= self.entries@.len(),
                self.fill_gaps == gap,
                self.entries == old(self).entries,
                merged(es, gap) == seq![(first_start, farthest_end)] + merged(self.pending(), gap),
            decreases self.entries@.len() - self.index,
        {
            let ghost rest = self.pending();
            if self.index >= self.entries.len() {
                assert(rest.len() == 0);
                assert(seq![(first_start, farthest_end)] + merged(rest, gap) == seq![(first_start, farthest_end)]);
                break;
            }
            let (start, end) = self.entries[self.index];
            assert(rest[0] == (start, end));
            if start <= farthest_end || start - farthest_end <= self.fill_gaps {
                if end > farthest_end {
                    farthest_end = end;
                }
                self.index = self.index + 1;
                assert(self.pending() == rest.drop_first());
            } else {
                break;
            }
        }
        proof { lemma_merged_len(self.pending(), gap); }
        Some(first_start..farthest_end)
    }
}

} // verus!

verus! {

/// Pushing `start..end` adds exactly the points of `start..end` to the covered set.
pub proof fn law_push_covers(m: Map<usize, usize>, start: usize, end: usize, p: int)
    ensures
        map_covers(m.insert(start, pushed_end(m, start, end)), p) <==> (map_covers(m, p) || (start <= p < end)),
{
    let n = m.insert(start, pushed_end(m, start, end));
    if map_covers(m, p) {
        let k = choose|k: usize| #[trigger] m.contains_key(k) && k <= p && p < m[k];
        assert(n.contains_key(k) && k <= p && p < n[k]);
    }
    if start <= p < end {
        assert(n.contains_key(start) && start <= p && p < n[start]);
    }
    if map_covers(n, p) {
        let k = choose|k: usize| #[trigger] n.contains_key(k) && k <= p && p < n[k];
        if k != start {
            assert(m.contains_key(k) && k <= p && p < m[k]);
        } else if !(start <= p < end) {
            assert(m.contains_key(start) && start <= p && p < m[start]);
        }
    }
}

/// A union has one sorted listing: equal unions list the same ranges.
pub proof fn law_sorted_listing_is_unique(s1: Seq<(usize, usize)>, s2: Seq<(usize, usize)>, m: Map<usize, usize>)
    requires
        is_sorted_listing(s1, m),
        is_sorted_listing(s2, m),
    ensures
        s1 == s2,
    decreases s1.len(),
{
    if s1.len() == 0 {
        if s2.len() > 0 {
            assert(m.contains_key(s2[0].0));
        }
        assert(s1 =~= s2);
    } else {
        assert(m.contains_key(s1[0].0));
        if s2.len() == 0 {
            assert(false);
        }
        let k1 = s1[0].0;
        let k2 = s2[0].0;
        assert(m.contains_key(k2));
        let i2 = choose|i: int| 0 <= i < s1.len() && s1[i].0 == k2;
        let i1 = choose|i: int| 0 <= i < s2.len() && s2[i].0 == k1;
        if i2 > 0 {
            assert(s1[0].0 < s1[i2].0);
        }
        if i1 > 0 {
            assert(s2[0].0 < s2[i1].0);
        }
        assert(k1 == k2);
        let m2 = m.remove(k1);
        let t1 = s1.drop_first();
        let t2 = s2.drop_first();
        assert forall|k: usize| #[trigger] m2.contains_key(k) implies exists|i: int| 0 <= i < t1.len() && t1[i].0 == k by {
            let i = choose|i: int| 0 <= i < s1.len() && s1[i].0 == k;
            assert(i != 0);
            assert(t1[i - 1].0 == k);
        }
        assert forall|k: usize| #[trigger] m2.contains_key(k) implies exists|i: int| 0 <= i < t2.len() && t2[i].0 == k by {
            let i = choose|i: int| 0 <= i < s2.len() && s2[i].0 == k;
            assert(i != 0);
            assert(t2[i - 1].0 == k);
        }
        assert forall|i: int| 0 <= i < t1.len() implies #[trigger] m2.contains_key(t1[i].0) && m2[t1[i].0] == t1[i].1 by {
            assert(s1[0].0 < s1[i + 1].0);
            assert(m.contains_key(s1[i + 1].0));
        }
        assert forall|i: int| 0 <= i < t2.len() implies #[trigger] m2.contains_key(t2[i].0) && m2[t2[i].0] == t2[i].1 by {
            assert(s2[0].0 < s2[i + 1].0);
            assert(m.contains_key(s2[i + 1].0));
        }
        assert(strictly_sorted(t1)) by {
            assert forall|i: int, j: int| 0 <= i < j < t1.len() implies t1[i].0 < t1[j].0 by {
                assert(s1[i + 1].0 < s1[j + 1].0);
            }
        }
        assert(strictly_sorted(t2)) by {
            assert forall|i: int, j: int| 0 <= i < j < t2.len() implies t2[i].0 < t2[j].0 by {
                assert(s2[i + 1].0 < s2[j + 1].0);
            }
        }
        law_sorted_listing_is_unique(t1, t2, m2);
        assert(s1[0] == s2[0]);
        assert(s1 =~= seq![s1[0]] + t1);
        assert(s2 =~= seq![s2[0]] + t2);
    }
}

/// Pushing two ranges in either order gives the same union.
pub proof fn law_pushes_commute(m: Map<usize, usize>, a: Range<usize>, b: Range<usize>)
    ensures
        pushed_all(m, seq![a, b]) == pushed_all(m, seq![b, a]),
{
    reveal_with_fuel(pushed_all, 3);
    assert(seq![a, b].drop_last() =~= seq![a]);
    assert(seq![b, a].drop_last() =~= seq![b]);
    assert(seq![a].drop_last() =~= Seq::<Range<usize>>::empty());
    assert(seq![b].drop_last() =~= Seq::<Range<usize>>::empty());
    let pa = m.insert(a.start, pushed_end(m, a.start, a.end));
    let pb = m.insert(b.start, pushed_end(m, b.start, b.end));
    assert(pushed_all(m, seq![a]) == pa);
    assert(pushed_all(m, seq![b]) == pb);
    assert(pushed_all(m, seq![a, b]) == pa.insert(b.start, pushed_end(pa, b.start, b.end)));
    assert(pushed_all(m, seq![b, a]) == pb.insert(a.start, pushed_end(pb, a.start, a.end)));
    assert(pa.insert(b.start, pushed_end(pa, b.start, b.end)) =~= pb.insert(a.start, pushed_end(pb, a.start, a.end)));
}

/// Pushing a range a second time changes nothing.
pub proof fn law_push_idempotent(m: Map<usize, usize>, start: usize, end: usize)
    ensures
        ({
            let once = m.insert(start, pushed_end(m, start, end));
            once.insert(start, pushed_end(once, start, end)) == once
        }),
{
    let once = m.insert(start, pushed_end(m, start, end));
    assert(once.insert(start, pushed_end(once, start, end)) =~= once);
}

/// Whether some range of `rs` holds `p`.
pub open spec fn ranges_cover(rs: Seq<Range<usize>>, p: int) -> bool {
    exists|i: int| 0 <= i < rs.len() && #[trigger] rs[i].start <= p && p < rs[i].end
}

/// After pushing `rs`, the covered points are those covered before and those of `rs`.
pub proof fn law_pushed_all_covers(m: Map<usize, usize>, rs: Seq<Range<usize>>, p: int)
    ensures
        map_covers(pushed_all(m, rs), p) <==> (map_covers(m, p) || ranges_cover(rs, p)),
    decreases rs.len(),
{
    if rs.len() > 0 {
        let prev = pushed_all(m, rs.drop_last());
        let r = rs.last();
        law_pushed_all_covers(m, rs.drop_last(), p);
        law_push_covers(prev, r.start, r.end, p);
        if ranges_cover(rs.drop_last(), p) {
            let i = choose|i: int| 0 <= i < rs.drop_last().len() && #[trigger] rs.drop_last()[i].start <= p && p < rs.drop_last()[i].end;
            assert(rs[i].start <= p && p < rs[i].end);
        }
        if ranges_cover(rs, p) {
            let i = choose|i: int| 0 <= i < rs.len() && #[trigger] rs[i].start <= p && p < rs[i].end;
            if i < rs.len() - 1 {
                assert(rs.drop_last()[i].start <= p && p < rs.drop_last()[i].end);
            }
        }
    }
}

/// A sorted listing of a map covers the same points as the map.
pub proof fn lemma_listing_covers(s: Seq<(usize, usize)>, m: Map<usize, usize>, p: int)
    requires
        is_sorted_listing(s, m),
    ensures
        seq_covers(s, p) <==> map_covers(m, p),
{
    if seq_covers(s, p) {
        let i = choose|i: int| 0 <= i < s.len() && #[trigger] s[i].0 <= p && p < s[i].1;
        assert(m.contains_key(s[i].0) && s[i].0 <= p && p < m[s[i].0]);
    }
    if map_covers(m, p) {
        let k = choose|k: usize| #[trigger] m.contains_key(k) && k <= p && p < m[k];
        let i = choose|i: int| 0 <= i < s.len() && s[i].0 == k;
        assert(s[i].0 <= p && p < s[i].1);
    }
}

/// Every point of the open range or of a later entry is covered by the merged ranges.
proof fn lemma_merge_from_covers(es: Seq<(usize, usize)>, start: usize, reach: usize, gap: usize, p: int)
    requires
        strictly_sorted(es),
        forall|i: int| 0 <= i < es.len() ==> start <= #[trigger] es[i].0,
        (start <= p < reach) || seq_covers(es, p),
    ensures
        seq_covers(merge_from(es, start, reach, gap), p),
    decreases es.len(),
{
    let out = merge_from(es, start, reach, gap);
    if es.len() == 0 {
        assert(out[0].0 <= p && p < out[0].1);
    } else {
        let rest = es.drop_first();
        let in_first = es[0].0 <= p && p < es[0].1;
        let in_rest = seq_covers(rest, p);
        if !(start <= p < reach) && !in_first {
            let i = choose|i: int| 0 <= i < es.len() && #[trigger] es[i].0 <= p && p < es[i].1;
            assert(rest[i - 1].0 <= p && p < rest[i - 1].1);
        }
        if es[0].0 <= reach + gap {
            let r2 = if es[0].1 > reach { es[0].1 } else { reach };
            if in_rest && !(start <= p < r2) {
                lemma_merge_from_covers(rest, start, r2, gap, p);
            } else {
                lemma_merge_from_covers(rest, start, r2, gap, p);
            }
        } else {
            let tail = merge_from(rest, es[0].0, es[0].1, gap);
            if start <= p < reach {
                assert(out[0].0 <= p && p < out[0].1);
            } else {
                lemma_merge_from_covers(rest, es[0].0, es[0].1, gap, p);
                let j = choose|j: int| 0 <= j < tail.len() && #[trigger] tail[j].0 <= p && p < tail[j].1;
                assert(out[j + 1] == tail[j]);
            }
        }
    }
}

/// Without gap filling, the merged ranges cover only points of the open range or of the entries.
proof fn lemma_merge_from_exact(es: Seq<(usize, usize)>, start: usize, reach: usize, p: int)
    requires
        seq_covers(merge_from(es, start, reach, 0), p),
    ensures
        (start <= p < reach) || seq_covers(es, p),
    decreases es.len(),
{
    let out = merge_from(es, start, reach, 0);
    if es.len() > 0 {
        let rest = es.drop_first();
        if es[0].0 <= reach {
            let r2 = if es[0].1 > reach { es[0].1 } else { reach };
            lemma_merge_from_exact(rest, start, r2, p);
            if seq_covers(rest, p) {
                let i = choose|i: int| 0 <= i < rest.len() && #[trigger] rest[i].0 <= p && p < rest[i].1;
                assert(es[i + 1].0 <= p && p < es[i + 1].1);
            } else if !(start <= p < reach) {
                assert(es[0].0 <= p && p < es[0].1);
            }
        } else {
            let tail = merge_from(rest, es[0].0, es[0].1, 0);
            let j = choose|j: int| 0 <= j < out.len() && #[trigger] out[j].0 <= p && p < out[j].1;
            if j > 0 {
                assert(tail[j - 1] == out[j]);
                lemma_merge_from_exact(rest, es[0].0, es[0].1, p);
                if seq_covers(rest, p) {
                    let i = choose|i: int| 0 <= i < rest.len() && #[trigger] rest[i].0 <= p && p < rest[i].1;
                    assert(es[i + 1].0 <= p && p < es[i + 1].1);
                } else {
                    assert(es[0].0 <= p && p < es[0].1);
                }
            }
        }
    }
}

/// Consecutive merged ranges start in increasing order and are more than `gap` apart.
proof fn lemma_merge_from_separated(es: Seq<(usize, usize)>, start: usize, reach: usize, gap: usize)
    requires
        strictly_sorted(es),
        forall|i: int| 0 <= i < es.len() ==> start < #[trigger] es[i].0,
    ensures
        ({
            let out = merge_from(es, start, reach, gap);
            &&& out.len() >= 1
            &&& out[0].0 == start
            &&& out[0].1 >= reach
            &&& forall|j: int| 0 <= j < out.len() - 1 ==> out[j].0 < #[trigger] out[j + 1].0 && out[j].1 + gap < out[j + 1].0
        }),
    decreases es.len(),
{
    let out = merge_from(es, start, reach, gap);
    if es.len() > 0 {
        let rest = es.drop_first();
        assert(forall|i: int| 0 <= i < rest.len() ==> rest[i] == es[i + 1]);
        if es[0].0 <= reach + gap {
            let r2 = if es[0].1 > reach { es[0].1 } else { reach };
            lemma_merge_from_separated(rest, start, r2, gap);
        } else {
            lemma_merge_from_separated(rest, es[0].0, es[0].1, gap);
            let tail = merge_from(rest, es[0].0, es[0].1, gap);
            lemma_merge_from_len(rest, es[0].0, es[0].1, gap);
            assert(out == seq![(start, reach)] + tail);
            assert(out.len() == tail.len() + 1);
            assert forall|j: int| 0 <= j < out.len() - 1 implies out[j].0 < #[trigger] out[j + 1].0 && out[j].1 + gap < out[j + 1].0 by {
                if j > 0 {
                    assert(out[j] == tail[j - 1]);
                    assert(out[j + 1] == tail[j]);
                    let jj = j - 1;
                    assert(tail[jj].0 < tail[jj + 1].0 && tail[jj].1 + gap < tail[jj + 1].0);
                } else {
                    assert(out[0] == (start, reach));
                    assert(out[1] == tail[0]);
                    assert(tail[0].0 == es[0].0);
                    assert(start < es[0].0);
                    assert(reach + gap < es[0].0);
                }
            }
        }
    }
}

/// The merged ranges of sorted entries come in increasing order of start, any two
/// consecutive ones more than `gap` apart; they cover every point the entries cover,
/// and without gap filling nothing else.
pub proof fn law_merged_ranges(es: Seq<(usize, usize)>, gap: usize, p: int)
    requires
        strictly_sorted(es),
    ensures
        ({
            let out = merged(es, gap);
            &&& forall|j: int| 0 <= j < out.len() - 1 ==> out[j].0 < #[trigger] out[j + 1].0 && out[j].1 + gap < out[j + 1].0
            &&& seq_covers(es, p) ==> seq_covers(out, p)
            &&& gap == 0 ==> (seq_covers(out, p) <==> seq_covers(es, p))
        }),
{
    if es.len() > 0 {
        let rest = es.drop_first();
        assert(forall|i: int| 0 <= i < rest.len() ==> rest[i] == es[i + 1]);
        lemma_merge_from_separated(rest, es[0].0, es[0].1, gap);
        if seq_covers(es, p) {
            let i = choose|i: int| 0 <= i < es.len() && #[trigger] es[i].0 <= p && p < es[i].1;
            if i > 0 {
                assert(rest[i - 1].0 <= p && p < rest[i - 1].1);
            }
            lemma_merge_from_covers(rest, es[0].0, es[0].1, gap, p);
        }
        if gap == 0 && seq_covers(merged(es, gap), p) {
            lemma_merge_from_exact(rest, es[0].0, es[0].1, p);
            if seq_covers(rest, p) {
                let i = choose|i: int| 0 <= i < rest.len() && #[trigger] rest[i].0 <= p && p < rest[i].1;
                assert(es[i + 1].0 <= p && p < es[i + 1].1);
            } else {
                assert(es[0].0 <= p && p < es[0].1);
            }
        }
    }
}

/// Pushing the ranges `rs` into an empty union and walking it without gap filling
/// yields sorted, pairwise separated ranges that cover exactly the points of `rs`.
/// Whether `p` lies in one of the entries of `es`, or at most `gap` lines past
/// the end of one that starts no later than `p`.
pub open spec fn near_entry(es: Seq<(usize, usize)>, gap: usize, p: int) -> bool {
    exists|i: int| 0 <= i < es.len() && #[trigger] es[i].0 <= p && p < es[i].1 + gap
}

/// Filling gaps joins ranges only across gaps of at most `gap` lines: every
/// line of a merged range lies in one of the entries or at most `gap` lines
/// past the end of an entry that starts before it.
pub proof fn law_merged_lines_are_near_entries(es: Seq<(usize, usize)>, gap: usize, p: int)
    requires
        strictly_sorted(es),
        seq_covers(merged(es, gap), p),
    ensures
        near_entry(es, gap, p),
{
    let rest = es.drop_first();
    assert(es[0] == es[0]);
    assert forall|i: int| 0 <= i < rest.len() implies es.contains(#[trigger] rest[i]) by {
        assert(es[i + 1] == rest[i]);
    }
    assert(es.contains(es[0]));
    lemma_merge_from_near(es, rest, es[0].0, es[0].0, es[0].1, gap, es[0], p);
}

proof fn lemma_entry_near(all: Seq<(usize, usize)>, gap: usize, w: (usize, usize), p: int)
    requires
        all.contains(w),
        w.0 <= p < w.1 + gap,
    ensures
        near_entry(all, gap, p),
{
    let j = choose|j: int| 0 <= j < all.len() && all[j] == w;
    assert(all[j].0 <= p && p < all[j].1 + gap);
}

proof fn lemma_merge_from_near(
    all: Seq<(usize, usize)>,
    es: Seq<(usize, usize)>,
    start: usize,
    last: usize,
    reach: usize,
    gap: usize,
    w: (usize, usize),
    p: int,
)
    requires
        all.contains(w),
        w.0 <= last,
        w.1 == reach,
        start <= last,
        forall|q: int| start <= q < last ==> near_entry(all, gap, q),
        forall|i: int| 0 <= i < es.len() ==> all.contains(#[trigger] es[i]),
        forall|i: int| 0 <= i < es.len() ==> last < #[trigger] es[i].0,
        strictly_sorted(es),
        seq_covers(merge_from(es, start, reach, gap), p),
    ensures
        near_entry(all, gap, p),
    decreases es.len(),
{
    let out = merge_from(es, start, reach, gap);
    if es.len() == 0 {
        assert(out[0] == (start, reach));
        if p >= last {
            lemma_entry_near(all, gap, w, p);
        }
    } else {
        let rest = es.drop_first();
        assert forall|i: int| 0 <= i < rest.len() implies all.contains(#[trigger] rest[i]) && es[0].0 < rest[i].0 by {
            assert(rest[i] == es[i + 1]);
        }
        assert(all.contains(es[0]));
        if es[0].0 <= reach + gap {
            let r2 = if es[0].1 > reach { es[0].1 } else { reach };
            let w2 = if es[0].1 > reach { es[0] } else { w };
            assert forall|q: int| start <= q < es[0].0 implies near_entry(all, gap, q) by {
                if q >= last {
                    lemma_entry_near(all, gap, w, q);
                }
            }
            lemma_merge_from_near(all, rest, start, es[0].0, r2, gap, w2, p);
        } else {
            let tail = merge_from(rest, es[0].0, es[0].1, gap);
            assert(out == seq![(start, reach)] + tail);
            let i = choose|i: int| 0 <= i < out.len() && #[trigger] out[i].0 <= p && p < out[i].1;
            if i == 0 {
                if p >= last {
                    lemma_entry_near(all, gap, w, p);
                }
            } else {
                assert(tail[i - 1] == out[i]);
                assert(seq_covers(tail, p));
                lemma_merge_from_near(all, rest, es[0].0, es[0].0, es[0].1, gap, es[0], p);
            }
        }
    }
}

pub proof fn law_iter_covers_exactly_the_pushed_ranges(rs: Seq<Range<usize>>, listing: Seq<(usize, usize)>, p: int)
    requires
        is_sorted_listing(listing, pushed_all(Map::empty(), rs)),
    ensures
        ({
            let out = merged(listing, 0);
            &&& forall|j: int| 0 <= j < out.len() - 1 ==> out[j].0 < #[trigger] out[j + 1].0 && out[j].1 < out[j + 1].0
            &&& seq_covers(out, p) <==> ranges_cover(rs, p)
        }),
{
    law_merged_ranges(listing, 0, p);
    lemma_listing_covers(listing, pushed_all(Map::empty(), rs), p);
    law_pushed_all_covers(Map::empty(), rs, p);
}

} // verus!
