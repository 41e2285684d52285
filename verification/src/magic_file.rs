//! A rule file: the entries parsed from its lines, sorted by strength.

use vstd::prelude::*;

use crate::magic_entry::{spec_line_adds, MagicEntry, MagicEntryBuilder};

verus! {

broadcast use vstd::seq_lib::group_seq_properties;

/// Entries ordered by non-decreasing strength.
pub open spec fn sorted_by_strength(s: Seq<MagicEntry>) -> bool {
    forall|i: int, j: int| 0 <= i < j < s.len() ==> s[i].strength <= s[j].strength
}

/// The subsequence of entries carrying one strength value, in order.
pub open spec fn strength_filter(s: Seq<MagicEntry>, st: i64) -> Seq<MagicEntry> {
    s.filter(|e: MagicEntry| e.strength == st)
}

proof fn lemma_filter_none(s: Seq<MagicEntry>, st: i64)
    requires
        forall|i: int| 0 <= i < s.len() ==> (#[trigger] s[i]).strength != st,
    ensures
        strength_filter(s, st) == Seq::<MagicEntry>::empty(),
    decreases s.len(),
{
    reveal(Seq::filter);
    if s.len() > 0 {
        assert(forall|i: int|
            0 <= i < s.drop_last().len() ==> (#[trigger] s.drop_last()[i]).strength != st);
        lemma_filter_none(s.drop_last(), st);
        assert(!(s.last().strength == st));
    }
}

proof fn lemma_filter_single(x: MagicEntry, st: i64)
    requires
        x.strength == st,
    ensures
        strength_filter(seq![x], st) == seq![x],
{
    reveal(Seq::filter);
    assert(seq![x].drop_last() =~= Seq::<MagicEntry>::empty());
    assert(strength_filter(seq![x].drop_last(), st) =~= Seq::<MagicEntry>::empty());
    assert(strength_filter(seq![x], st) =~= Seq::<MagicEntry>::empty().push(x));
    assert(Seq::<MagicEntry>::empty().push(x) =~= seq![x]);
}

/// Moving an entry backwards past entries of strictly different strength
/// keeps every per-strength subsequence.
proof fn lemma_move_preserves_strength_filters(t: Seq<MagicEntry>, p: int, k: int)
    requires
        0 <= p < k < t.len(),
        forall|j: int| p <= j < k ==> (#[trigger] t[j]).strength != t[k].strength,
    ensures
        forall|st: i64|
            #![trigger strength_filter(t.remove(k).insert(p, t[k]), st)]
            strength_filter(t.remove(k).insert(p, t[k]), st) == strength_filter(t, st),
{
    broadcast use vstd::seq_lib::group_seq_properties;

    let x = t[k];
    let a = t.subrange(0, p);
    let m = t.subrange(p, k);
    let c = t.subrange(k + 1, t.len() as int);
    let t2 = t.remove(k).insert(p, x);
    t.remove_ensures(k);
    t.remove(k).insert_ensures(p, x);
    assert(t =~= a + m + seq![x] + c);
    assert(t2 =~= a + seq![x] + m + c) by {
        assert(t2.len() == t.len());
        assert forall|i: int| 0 <= i < t2.len() implies t2[i] == (a + seq![x] + m + c)[i] by {
            if i < p {
                assert(t2[i] == t.remove(k)[i]);
                assert(t.remove(k)[i] == t[i]);
            } else if i == p {
                assert(t2[i] == x);
            } else if i <= k {
                assert(t2[i] == t.remove(k)[i - 1]);
                assert(t.remove(k)[i - 1] == t[i - 1]);
            } else {
                assert(t2[i] == t.remove(k)[i - 1]);
                assert(t.remove(k)[i - 1] == t[i]);
            }
        }
    }
    assert forall|st: i64|
        #![trigger strength_filter(t.remove(k).insert(p, t[k]), st)]
        strength_filter(t2, st) == strength_filter(t, st) by {
        let pred = |e: MagicEntry| e.strength == st;
        assert((a + m + seq![x] + c).filter(pred) == a.filter(pred) + m.filter(pred) + seq![
            x,
        ].filter(pred) + c.filter(pred)) by {
            Seq::filter_distributes_over_add(a + m + seq![x], c, pred);
            Seq::filter_distributes_over_add(a + m, seq![x], pred);
            Seq::filter_distributes_over_add(a, m, pred);
        }
        assert((a + seq![x] + m + c).filter(pred) == a.filter(pred) + seq![x].filter(pred)
            + m.filter(pred) + c.filter(pred)) by {
            Seq::filter_distributes_over_add(a + seq![x] + m, c, pred);
            Seq::filter_distributes_over_add(a + seq![x], m, pred);
            Seq::filter_distributes_over_add(a, seq![x], pred);
        }
        reveal(Seq::filter);
        if x.strength == st {
            assert(forall|i: int| 0 <= i < m.len() ==> (#[trigger] m[i]).strength != st);
            lemma_filter_none(m, st);
            assert(m.filter(pred) + seq![x].filter(pred) =~= seq![x].filter(pred) + m.filter(
                pred,
            ));
        } else {
            assert(seq![x].drop_last() =~= Seq::<MagicEntry>::empty());
            assert(!pred(seq![x].last()));
            assert(Seq::<MagicEntry>::empty().filter(pred) =~= Seq::<MagicEntry>::empty());
            assert(seq![x].filter(pred) =~= Seq::<MagicEntry>::empty());
            assert(m.filter(pred) + seq![x].filter(pred) =~= seq![x].filter(pred) + m.filter(
                pred,
            ));
        }
        assert(strength_filter(t2, st) =~= strength_filter(t, st));
    }
}

/// Inserting anywhere adds one occurrence to the multiset.
proof fn lemma_to_multiset_insert(s: Seq<MagicEntry>, p: int, x: MagicEntry)
    requires
        0 <= p <= s.len(),
    ensures
        s.insert(p, x).to_multiset() == s.to_multiset().insert(x),
{
    broadcast use vstd::seq_lib::group_to_multiset_ensures;

    let t = s.insert(p, x);
    s.insert_ensures(p, x);
    assert(t.remove(p) =~= s);
    assert(t.remove(p).to_multiset() =~= t.to_multiset().remove(t[p]));
    assert(t[p] == x);
    assert(t.contains(x)) by {
        assert(t[p] == x);
    }
    assert(t.to_multiset().count(x) > 0);
    assert(t.to_multiset() =~= s.to_multiset().insert(x)) by {
        assert(s.to_multiset() == t.to_multiset().remove(x));
        assert(forall|y: MagicEntry|
            s.to_multiset().insert(x).count(y) == t.to_multiset().count(y));
    }
}

/// A parsed rule file: its entries in match order.
#[derive(Debug)]
pub struct MagicFile {
    pub entries: Vec<MagicEntry>,
}

impl MagicFile {
    /// Parses the lines of a rule file: entries are built until the lines
    /// run out, builders that saw no rule line are discarded, and the
    /// entries are sorted by non-decreasing strength, which fixes the
    /// match priority.
    pub fn parse(lines: &Vec<Vec<u8>>) -> (r: MagicFile)
        ensures
            sorted_by_strength(r.entries@),
            forall|k: int| 0 <= k < r.entries@.len() ==> (#[trigger] r.entries@[k]).well_formed(),
            (r.entries@.len() > 0) == (exists|k: int|
                #![trigger lines@[k]]
                0 <= k < lines@.len() && spec_line_adds(lines@[k]@)),
    {
        let mut magic = MagicFile { entries: Vec::new() };
        let mut idx: usize = 0;
        while idx < lines.len()
            invariant
                idx <= lines@.len(),
                forall|k: int|
                    0 <= k < magic.entries@.len() ==> (#[trigger] magic.entries@[k]).well_formed(),
                (magic.entries@.len() > 0) == (exists|k: int|
                    #![trigger lines@[k]]
                    0 <= k < idx && spec_line_adds(lines@[k]@)),
            decreases lines@.len() - idx,
        {
            let mut builder = MagicEntryBuilder::new();
            let next = builder.parse_until_new_entry(lines, idx);
            match builder.build() {
                Some(entry) => magic.insert_entry(entry),
                None => {},
            }
            idx = next;
        }
        magic.sort_by_strength();
        magic
    }

    /// Appends an entry.
    pub fn insert_entry(&mut self, entry: MagicEntry)
        requires
            entry.well_formed(),
        ensures
            final(self).entries@ == old(self).entries@.push(entry),
    {
        self.entries.push(entry);
    }

    /// Sorts the entries by non-decreasing strength with a stable
    /// insertion sort: an entry moves only past entries of strictly
    /// greater strength, so equal strengths keep their order.
    pub fn sort_by_strength(&mut self)
        ensures
            sorted_by_strength(final(self).entries@),
            final(self).entries@.to_multiset() == old(self).entries@.to_multiset(),
            final(self).entries@.len() == old(self).entries@.len(),
            forall|st: i64|
                #![trigger strength_filter(final(self).entries@, st)]
                strength_filter(final(self).entries@, st) == strength_filter(
                    old(self).entries@,
                    st,
                ),
            (forall|k: int|
                0 <= k < old(self).entries@.len() ==> (#[trigger] old(self).entries@[k]).well_formed())
                ==> (forall|k: int|
                0 <= k < final(self).entries@.len() ==> (#[trigger] final(self).entries@[k]).well_formed()),
    {
        broadcast use vstd::seq_lib::group_to_multiset_ensures;

        let n = self.entries.len();
        let mut k: usize = 1;
        while k < n
            invariant
                n == 0 || 1 <= k <= n,
                n == self.entries@.len(),
                n == old(self).entries@.len(),
                forall|i: int, j: int|
                    0 <= i < j < k && j < n ==> self.entries@[i].strength
                        <= self.entries@[j].strength,
                self.entries@.to_multiset() == old(self).entries@.to_multiset(),
                forall|st: i64|
                    #![trigger strength_filter(self.entries@, st)]
                    strength_filter(self.entries@, st) == strength_filter(
                        old(self).entries@,
                        st,
                    ),
            decreases n - k,
        {
            let key = self.entries[k].strength;
            let mut p = k;
            while p > 0 && self.entries[p - 1].strength > key
                invariant
                    p <= k < n,
                    n == self.entries@.len(),
                    self.entries@[k as int].strength == key,
                    forall|i: int| p <= i < k ==> self.entries@[i].strength > key,
                decreases p,
            {
                p = p - 1;
            }
            if p < k {
                let ghost before = self.entries@;
                let e = self.entries.remove(k);
                let ghost mid = self.entries@;
                self.entries.insert(p, e);
                proof {
                    lemma_move_preserves_strength_filters(before, p as int, k as int);
                    assert(self.entries@ =~= before.remove(k as int).insert(
                        p as int,
                        before[k as int],
                    ));
                    assert forall|st: i64|
                        #![trigger strength_filter(self.entries@, st)]
                        strength_filter(self.entries@, st) == strength_filter(
                            old(self).entries@,
                            st,
                        ) by {
                        assert(strength_filter(
                            before.remove(k as int).insert(p as int, before[k as int]),
                            st,
                        ) == strength_filter(before, st));
                    }
                    assert(mid =~= before.remove(k as int));
                    before.remove_ensures(k as int);
                    assert(self.entries@ =~= mid.insert(p as int, e));
                    mid.insert_ensures(p as int, e);
                    assert(mid.to_multiset() == before.to_multiset().remove(before[k as int]));
                    lemma_to_multiset_insert(mid, p as int, e);
                    assert(self.entries@.to_multiset() =~= before.to_multiset()) by {
                        assert(before.to_multiset().count(e) > 0) by {
                            assert(before.contains(e)) by {
                                assert(before[k as int] == e);
                            }
                        }
                    }
                    // the new prefix of length k + 1 is sorted
                    assert forall|i: int, j: int|
                        0 <= i < j < k + 1 && j < n implies self.entries@[i].strength
                        <= self.entries@[j].strength by {
                        let s = self.entries@;
                        if j < p {
                            assert(s[i] == before[i] && s[j] == before[j]);
                        } else if j == p {
                            assert(s[j] == e);
                            assert(s[i] == before[i]);
                            if p > 0 {
                                assert(before[p - 1].strength <= key);
                            }
                        } else {
                            assert(s[j] == before[j - 1]);
                            assert(before[j - 1].strength > key);
                            if i < p {
                                assert(s[i] == before[i]);
                                if p > 0 {
                                    assert(before[p - 1].strength <= key);
                                }
                            } else if i == p {
                                assert(s[i] == e);
                            } else {
                                assert(s[i] == before[i - 1]);
                            }
                        }
                    }
                }
            }
            k = k + 1;
        }
        proof {
            if n == 0 {
            }
            assert forall|k2: int|
                0 <= k2 < self.entries@.len() && (forall|m: int|
                    0 <= m < old(self).entries@.len() ==> (#[trigger] old(
                        self,
                    ).entries@[m]).well_formed()) implies (#[trigger] self.entries@[k2]).well_formed() by {
                assert(self.entries@.to_multiset().count(self.entries@[k2]) > 0) by {
                    assert(self.entries@.contains(self.entries@[k2]));
                }
                assert(old(self).entries@.contains(self.entries@[k2]));
                let m = choose|m: int|
                    0 <= m < old(self).entries@.len() && old(self).entries@[m] == self.entries@[k2];
            }
        }
    }
}

} // verus!
