//! Frequency statistics over the record set: counts by taxon rank, by
//! lifeform description and by geographic area, each table ordered by
//! count descending with a deterministic tie-break on the key.

use vstd::prelude::*;
use crate::text;
use crate::wcvp::data::{spec_rank_index, Data, TaxonRank};

verus! {

/// Lexicographic order on character sequences, by code point.
pub open spec fn lex_le(a: Seq<char>, b: Seq<char>) -> bool
    decreases a.len(),
{
    if a.len() == 0 {
        true
    } else if b.len() == 0 {
        false
    } else if (a.first() as u32) < (b.first() as u32) {
        true
    } else if (a.first() as u32) > (b.first() as u32) {
        false
    } else {
        lex_le(a.drop_first(), b.drop_first())
    }
}

proof fn lemma_lex_le_skip(a: Seq<char>, b: Seq<char>, i: int)
    requires
        0 <= i <= a.len(),
        i <= b.len(),
        forall|k: int| 0 <= k < i ==> a[k] == b[k],
    ensures
        lex_le(a, b) == lex_le(a.skip(i), b.skip(i)),
    decreases i,
{
    if i == 0 {
        assert(a.skip(0) =~= a);
        assert(b.skip(0) =~= b);
    } else {
        assert(a.first() == b.first());
        assert(a.len() > 0 && b.len() > 0);
        let a1 = a.drop_first();
        let b1 = b.drop_first();
        assert(forall|k: int| 0 <= k < i - 1 ==> a1[k] == a[k + 1] && b1[k] == b[k + 1]);
        lemma_lex_le_skip(a1, b1, i - 1);
        assert(a1.skip(i - 1) =~= a.skip(i));
        assert(b1.skip(i - 1) =~= b.skip(i));
    }
}

proof fn lemma_lex_le_total(a: Seq<char>, b: Seq<char>)
    ensures
        lex_le(a, b) || lex_le(b, a),
    decreases a.len(),
{
    if a.len() == 0 || b.len() == 0 {
    } else if (a.first() as u32) == (b.first() as u32) {
        lemma_lex_le_total(a.drop_first(), b.drop_first());
    }
}

proof fn lemma_lex_le_trans(a: Seq<char>, b: Seq<char>, c: Seq<char>)
    requires
        lex_le(a, b),
        lex_le(b, c),
    ensures
        lex_le(a, c),
    decreases a.len(),
{
    if a.len() == 0 {
    } else {
        assert(b.len() > 0);
        assert(c.len() > 0);
        if (a.first() as u32) == (b.first() as u32) && (b.first() as u32) == (c.first() as u32) {
            lemma_lex_le_trans(a.drop_first(), b.drop_first(), c.drop_first());
        }
    }
}

/// Compare two character vectors lexicographically.
pub fn chars_le(a: &Vec<char>, b: &Vec<char>) -> (r: bool)
    ensures
        r == lex_le(a@, b@),
{
    let mut i: usize = 0;
    while i < a.len() && i < b.len()
        invariant
            i <= a@.len(),
            i <= b@.len(),
            forall|k: int| 0 <= k < i ==> a@[k] == b@[k],
        decreases a@.len() - i,
    {
        let ca: char = a[i];
        let cb: char = b[i];
        if ca != cb {
            proof {
                lemma_lex_le_skip(a@, b@, i as int);
                if (ca as u32) == (cb as u32) {
                    vstd::utf8::char_u32_cast(ca, ca as u32);
                    vstd::utf8::char_u32_cast(cb, cb as u32);
                }
            }
            return (ca as u32) < (cb as u32);
        }
        i = i + 1;
    }
    proof {
        lemma_lex_le_skip(a@, b@, i as int);
    }
    i == a.len()
}

/// A key a frequency table can count: it can be copied, its equality can
/// be decided, and it carries a total tie-break order.
pub trait StatKey: Sized + View {
    /// The tie-break order on key views.
    spec fn key_le(a: Self::V, b: Self::V) -> bool;

    /// Decide view equality.
    fn eq_key(&self, other: &Self) -> (r: bool)
        ensures
            r == (self@ == other@),
    ;

    /// Decide the tie-break order.
    fn le_key(&self, other: &Self) -> (r: bool)
        ensures
            r == Self::key_le(self@, other@),
    ;

    /// A copy with the same view.
    fn dup(&self) -> (r: Self)
        ensures
            r@ == self@,
    ;

    /// The tie-break order is total.
    proof fn lemma_key_le_total(a: Self::V, b: Self::V)
        ensures
            Self::key_le(a, b) || Self::key_le(b, a),
    ;

    /// The tie-break order is transitive.
    proof fn lemma_key_le_trans(a: Self::V, b: Self::V, c: Self::V)
        requires
            Self::key_le(a, b),
            Self::key_le(b, c),
        ensures
            Self::key_le(a, c),
    ;
}

impl View for TaxonRank {
    type V = TaxonRank;

    open spec fn view(&self) -> TaxonRank {
        *self
    }
}

impl StatKey for TaxonRank {
    open spec fn key_le(a: TaxonRank, b: TaxonRank) -> bool {
        spec_rank_index(a) <= spec_rank_index(b)
    }

    fn eq_key(&self, other: &Self) -> (r: bool) {
        let a: u32 = self.index();
        let b: u32 = other.index();
        proof {
            if spec_rank_index(*self) == spec_rank_index(*other) {
                lemma_rank_index_injective(*self, *other);
            }
        }
        a == b
    }

    fn le_key(&self, other: &Self) -> (r: bool) {
        self.index() <= other.index()
    }

    fn dup(&self) -> (r: Self) {
        *self
    }

    proof fn lemma_key_le_total(a: TaxonRank, b: TaxonRank) {
    }

    proof fn lemma_key_le_trans(a: TaxonRank, b: TaxonRank, c: TaxonRank) {
    }
}

proof fn lemma_rank_index_injective(a: TaxonRank, b: TaxonRank)
    requires
        spec_rank_index(a) == spec_rank_index(b),
    ensures
        a == b,
{
}

impl StatKey for String {
    open spec fn key_le(a: Seq<char>, b: Seq<char>) -> bool {
        lex_le(a, b)
    }

    fn eq_key(&self, other: &Self) -> (r: bool) {
        text::text_eq(self.as_str(), other.as_str())
    }

    fn le_key(&self, other: &Self) -> (r: bool) {
        let a = text::chars_of(self.as_str());
        let b = text::chars_of(other.as_str());
        chars_le(&a, &b)
    }

    fn dup(&self) -> (r: Self) {
        self.clone()
    }

    proof fn lemma_key_le_total(a: Seq<char>, b: Seq<char>) {
        lemma_lex_le_total(a, b);
    }

    proof fn lemma_key_le_trans(a: Seq<char>, b: Seq<char>, c: Seq<char>) {
        lemma_lex_le_trans(a, b, c);
    }
}

/// Sum of the counts attached to entries whose key views `k`.
pub open spec fn count_in<T: StatKey>(s: Seq<(T, u32)>, k: T::V) -> int
    decreases s.len(),
{
    if s.len() == 0 {
        0
    } else {
        count_in(s.drop_last(), k) + if s.last().0@ == k {
            s.last().1 as int
        } else {
            0
        }
    }
}

/// Sum of all counts in the table.
pub open spec fn total_count<T: StatKey>(s: Seq<(T, u32)>) -> int
    decreases s.len(),
{
    if s.len() == 0 {
        0
    } else {
        total_count(s.drop_last()) + s.last().1
    }
}

/// No two entries share a key view.
pub open spec fn distinct_keys<T: StatKey>(s: Seq<(T, u32)>) -> bool {
    forall|i: int, j: int|
        0 <= i < j < s.len() ==> (#[trigger] s[i]).0@ != (#[trigger] s[j]).0@
}

/// A well-formed table: distinct keys, every count at least one.
pub open spec fn wf_entries<T: StatKey>(s: Seq<(T, u32)>) -> bool {
    distinct_keys(s) && (forall|i: int| 0 <= i < s.len() ==> (#[trigger] s[i]).1 >= 1)
}

/// Count descending, ties broken by the key order ascending.
pub open spec fn pair_le<T: StatKey>(a: (T, u32), b: (T, u32)) -> bool {
    a.1 > b.1 || (a.1 == b.1 && T::key_le(a.0@, b.0@))
}

/// Every pair of positions is ordered.
pub open spec fn pairs_sorted<T: StatKey>(s: Seq<(T, u32)>) -> bool {
    forall|i: int, j: int| 0 <= i < j < s.len() ==> pair_le(#[trigger] s[i], #[trigger] s[j])
}

proof fn lemma_pair_le_total<T: StatKey>(a: (T, u32), b: (T, u32))
    ensures
        pair_le(a, b) || pair_le(b, a),
{
    T::lemma_key_le_total(a.0@, b.0@);
}

proof fn lemma_pair_le_trans<T: StatKey>(a: (T, u32), b: (T, u32), c: (T, u32))
    requires
        pair_le(a, b),
        pair_le(b, c),
    ensures
        pair_le(a, c),
{
    if a.1 == b.1 && b.1 == c.1 {
        T::lemma_key_le_trans(a.0@, b.0@, c.0@);
    }
}

proof fn lemma_count_in_update<T: StatKey>(s: Seq<(T, u32)>, i: int, p: (T, u32), k: T::V)
    requires
        0 <= i < s.len(),
    ensures
        count_in(s.update(i, p), k) == count_in(s, k) - (if s[i].0@ == k {
            s[i].1 as int
        } else {
            0
        }) + (if p.0@ == k {
            p.1 as int
        } else {
            0
        }),
    decreases s.len(),
{
    let su = s.update(i, p);
    if i == s.len() - 1 {
        assert(su.drop_last() =~= s.drop_last());
    } else {
        assert(su.drop_last() =~= s.drop_last().update(i, p));
        assert(su.last() == s.last());
        lemma_count_in_update(s.drop_last(), i, p, k);
    }
}

proof fn lemma_total_update<T: StatKey>(s: Seq<(T, u32)>, i: int, p: (T, u32))
    requires
        0 <= i < s.len(),
    ensures
        total_count(s.update(i, p)) == total_count(s) - s[i].1 + p.1,
    decreases s.len(),
{
    let su = s.update(i, p);
    if i == s.len() - 1 {
        assert(su.drop_last() =~= s.drop_last());
    } else {
        assert(su.drop_last() =~= s.drop_last().update(i, p));
        assert(su.last() == s.last());
        lemma_total_update(s.drop_last(), i, p);
    }
}

proof fn lemma_elem_le_total<T: StatKey>(s: Seq<(T, u32)>, i: int)
    requires
        0 <= i < s.len(),
    ensures
        s[i].1 as int <= total_count(s),
        total_count(s) >= 0,
    decreases s.len(),
{
    lemma_total_nonneg(s.drop_last());
    if i < s.len() - 1 {
        lemma_elem_le_total(s.drop_last(), i);
    }
}

proof fn lemma_total_nonneg<T: StatKey>(s: Seq<(T, u32)>)
    ensures
        total_count(s) >= 0,
    decreases s.len(),
{
    if s.len() > 0 {
        lemma_total_nonneg(s.drop_last());
    }
}

/// A frequency counter over keys of type `T`.
pub struct Stat<T: StatKey> {
    entries: Vec<(T, u32)>,
}

impl<T: StatKey> Stat<T> {
    /// The table's entries.
    pub closed spec fn entries_view(self) -> Seq<(T, u32)> {
        self.entries@
    }

    pub open spec fn wf(self) -> bool {
        wf_entries(self.entries_view())
    }

    /// How often key view `k` has been added.
    pub open spec fn count(self, k: T::V) -> int {
        count_in(self.entries_view(), k)
    }

    /// How many additions the table has seen in all.
    pub open spec fn total(self) -> int {
        total_count(self.entries_view())
    }

    /// An empty table.
    pub fn new() -> (r: Stat<T>)
        ensures
            r.wf(),
            r.total() == 0,
            forall|k: T::V| r.count(k) == 0,
    {
        Stat { entries: Vec::new() }
    }

    /// Count one occurrence of `key`.
    pub fn add(&mut self, key: T)
        requires
            old(self).wf(),
            old(self).total() < u32::MAX,
        ensures
            final(self).wf(),
            final(self).total() == old(self).total() + 1,
            final(self).count(key@) == old(self).count(key@) + 1,
            forall|k: T::V| k != key@ ==> final(self).count(k) == old(self).count(k),
    {
        let ghost s0 = self.entries@;
        let mut j: usize = 0;
        while j < self.entries.len()
            invariant
                self.entries@ == s0,
                s0 == old(self).entries@,
                wf_entries(s0),
                total_count(s0) < u32::MAX,
                j <= s0.len(),
                forall|t: int| 0 <= t < j ==> (#[trigger] s0[t]).0@ != key@,
            decreases s0.len() - j,
        {
            if self.entries[j].0.eq_key(&key) {
                let c: u32 = self.entries[j].1;
                proof {
                    lemma_elem_le_total(s0, j as int);
                }
                let k2 = self.entries[j].0.dup();
                self.entries.set(j, (k2, c + 1));
                proof {
                    let s1 = self.entries@;
                    let p = ((k2, (c + 1) as u32));
                    assert(s1 == s0.update(j as int, p));
                    assert forall|k: T::V| #[trigger] count_in(s1, k) == count_in(s0, k) + (
                    if k == key@ {
                        1int
                    } else {
                        0int
                    }) by {
                        lemma_count_in_update(s0, j as int, p, k);
                    }
                    lemma_total_update(s0, j as int, p);
                    assert forall|a: int, b: int|
                        0 <= a < b < s1.len() implies (#[trigger] s1[a]).0@ != (
                    #[trigger] s1[b]).0@ by {
                        assert(s0[a].0@ != s0[b].0@);
                    }
                }
                return ;
            }
            j = j + 1;
        }
        let ghost slen = s0.len() as int;
        self.entries.push((key, 1));
        proof {
            let s1 = self.entries@;
            assert(s1.drop_last() =~= s0);
            assert forall|a: int, b: int|
                0 <= a < b < s1.len() implies (#[trigger] s1[a]).0@ != (#[trigger] s1[b]).0@ by {
                if b < slen {
                    assert(s0[a].0@ != s0[b].0@);
                } else {
                    assert(s1[b].0@ == key@);
                    assert(s0[a].0@ != key@);
                }
            }
        }
    }

    /// The table's entries, ordered by count descending with the key
    /// order as tie-break.
    pub fn to_sorted(&self) -> (r: Vec<(T, u32)>)
        requires
            self.wf(),
        ensures
            pairs_sorted(r@),
            wf_entries(r@),
            forall|k: T::V| count_in(r@, k) == self.count(k),
            total_count(r@) == self.total(),
            r@.len() == self.entries_view().len(),
    {
        let mut out: Vec<(T, u32)> = Vec::new();
        let mut i: usize = 0;
        while i < self.entries.len()
            invariant
                self.wf(),
                i <= self.entries@.len(),
                out@.len() == i as int,
                forall|t: int|
                    0 <= t < i ==> (#[trigger] out@[t]).0@ == self.entries@[t].0@ && out@[t].1
                        == self.entries@[t].1,
            decreases self.entries@.len() - i,
        {
            let k2 = self.entries[i].0.dup();
            let c: u32 = self.entries[i].1;
            out.push((k2, c));
            i = i + 1;
        }
        proof {
            lemma_pointwise_counts(out@, self.entries@);
        }
        sort_entries(&mut out);
        out
    }
}

/// Tables equal position by position (by key view and count) have the
/// same counts, the same total and the same key distinctness.
proof fn lemma_pointwise_counts<T: StatKey>(a: Seq<(T, u32)>, b: Seq<(T, u32)>)
    requires
        a.len() == b.len(),
        forall|t: int| 0 <= t < a.len() ==> (#[trigger] a[t]).0@ == b[t].0@ && a[t].1 == b[t].1,
    ensures
        forall|k: T::V| count_in(a, k) == count_in(b, k),
        total_count(a) == total_count(b),
        distinct_keys(a) == distinct_keys(b),
        wf_entries(a) == wf_entries(b),
    decreases a.len(),
{
    if a.len() > 0 {
        let a1 = a.drop_last();
        let b1 = b.drop_last();
        assert forall|t: int|
            0 <= t < a1.len() implies (#[trigger] a1[t]).0@ == b1[t].0@ && a1[t].1
                == b1[t].1 by {
            assert((#[trigger] a[t]).0@ == b[t].0@ && a[t].1 == b[t].1);
        }
        lemma_pointwise_counts(a1, b1);
        assert(a.last().0@ == b.last().0@ && a.last().1 == b.last().1) by {
            let t = a.len() - 1;
            assert((#[trigger] a[t]).0@ == b[t].0@ && a[t].1 == b[t].1);
        }
        assert forall|k: T::V| #[trigger] count_in(a, k) == count_in(b, k) by {
            assert(count_in(a1, k) == count_in(b1, k));
        }
    }
    if distinct_keys(a) {
        assert forall|i: int, j: int|
            0 <= i < j < b.len() implies (#[trigger] b[i]).0@ != (#[trigger] b[j]).0@ by {
            assert((#[trigger] a[i]).0@ == b[i].0@ && a[i].1 == b[i].1);
            assert((#[trigger] a[j]).0@ == b[j].0@ && a[j].1 == b[j].1);
            assert(a[i].0@ != a[j].0@);
        }
    }
    if distinct_keys(b) {
        assert forall|i: int, j: int|
            0 <= i < j < a.len() implies (#[trigger] a[i]).0@ != (#[trigger] a[j]).0@ by {
            assert((#[trigger] b[i]).0@ != (#[trigger] b[j]).0@);
        }
    }
    if wf_entries(a) {
        assert forall|i: int| 0 <= i < b.len() implies (#[trigger] b[i]).1 >= 1 by {
            assert((#[trigger] a[i]).0@ == b[i].0@ && a[i].1 == b[i].1);
            assert(a[i].1 >= 1);
        }
    }
    if wf_entries(b) {
        assert forall|i: int| 0 <= i < a.len() implies (#[trigger] a[i]).1 >= 1 by {
            assert((#[trigger] b[i]).1 >= 1);
        }
    }
}

/// Compare two entries by count descending, key ascending.
fn pair_le_exec<T: StatKey>(a: &(T, u32), b: &(T, u32)) -> (r: bool)
    ensures
        r == pair_le(*a, *b),
{
    if a.1 > b.1 {
        true
    } else if a.1 == b.1 {
        a.0.le_key(&b.0)
    } else {
        false
    }
}

/// Exchange the entries at `i` and `m`.
fn swap_entries<T: StatKey>(v: &mut Vec<(T, u32)>, i: usize, m: usize)
    requires
        i < m < old(v)@.len(),
    ensures
        final(v)@ == old(v)@.update(i as int, old(v)@[m as int]).update(m as int, old(v)@[i as int]),
{
    let ghost s0 = v@;
    let mut tmp = v.remove(m);
    v.set_and_swap(i, &mut tmp);
    v.insert(m, tmp);
    proof {
        assert(final(v)@ =~= s0.update(i as int, s0[m as int]).update(m as int, s0[i as int]));
    }
}

/// Sort a table by count descending with the key tie-break, keeping its
/// counts, total and key distinctness.
fn sort_entries<T: StatKey>(v: &mut Vec<(T, u32)>)
    ensures
        final(v)@.len() == old(v)@.len(),
        pairs_sorted(final(v)@),
        forall|k: T::V| count_in(final(v)@, k) == count_in(old(v)@, k),
        total_count(final(v)@) == total_count(old(v)@),
        distinct_keys(old(v)@) ==> distinct_keys(final(v)@),
        wf_entries(old(v)@) ==> wf_entries(final(v)@),
{
    let ghost s0 = v@;
    let n: usize = v.len();
    let mut i: usize = 0;
    while i < n
        invariant
            n == v@.len(),
            i <= n,
            forall|k: T::V| count_in(v@, k) == count_in(s0, k),
            total_count(v@) == total_count(s0),
            distinct_keys(s0) ==> distinct_keys(v@),
            wf_entries(s0) ==> wf_entries(v@),
            forall|a: int, b: int| 0 <= a < b < i ==> pair_le(#[trigger] v@[a], #[trigger] v@[b]),
            forall|a: int, b: int|
                0 <= a < i <= b < n ==> pair_le(#[trigger] v@[a], #[trigger] v@[b]),
        decreases n - i,
    {
        let mut m: usize = i;
        let mut j: usize = i + 1;
        proof {
            lemma_pair_le_total(v@[i as int], v@[i as int]);
        }
        while j < n
            invariant
                n == v@.len(),
                i <= m < j <= n,
                forall|k: int| i <= k < j ==> pair_le(v@[m as int], #[trigger] v@[k]),
            decreases n - j,
        {
            if pair_le_exec(&v[j], &v[m]) {
                proof {
                    assert forall|k: int| i <= k < j + 1 implies pair_le(
                        v@[j as int],
                        #[trigger] v@[k],
                    ) by {
                        if k < j {
                            lemma_pair_le_trans(v@[j as int], v@[m as int], v@[k]);
                        } else {
                            lemma_pair_le_total(v@[j as int], v@[j as int]);
                        }
                    }
                }
                m = j;
            } else {
                proof {
                    lemma_pair_le_total(v@[j as int], v@[m as int]);
                }
            }
            j = j + 1;
        }
        if m > i {
            let ghost sb = v@;
            swap_entries(v, i, m);
            proof {
                let sa = v@;
                assert forall|k: T::V| count_in(sa, k) == count_in(sb, k) by {
                    lemma_count_in_update(sb, i as int, sb[m as int], k);
                    lemma_count_in_update(
                        sb.update(i as int, sb[m as int]),
                        m as int,
                        sb[i as int],
                        k,
                    );
                }
                lemma_total_update(sb, i as int, sb[m as int]);
                lemma_total_update(sb.update(i as int, sb[m as int]), m as int, sb[i as int]);
                if distinct_keys(sb) {
                    assert forall|a: int, b: int|
                        0 <= a < b < sa.len() implies (#[trigger] sa[a]).0@ != (
                    #[trigger] sa[b]).0@ by {
                        assert(sa[a] == sb[if a == i as int {
                            m as int
                        } else if a == m as int {
                            i as int
                        } else {
                            a
                        }]);
                        assert(sa[b] == sb[if b == i as int {
                            m as int
                        } else if b == m as int {
                            i as int
                        } else {
                            b
                        }]);
                    }
                }
            }
        }
        i = i + 1;
    }
}

/// Occurrences of rank `k` in the record sequence.
pub open spec fn count_rank(s: Seq<Data>, k: TaxonRank) -> int
    decreases s.len(),
{
    if s.len() == 0 {
        0
    } else {
        count_rank(s.drop_last(), k) + if s.last().taxon_rank == k {
            1int
        } else {
            0int
        }
    }
}

/// Occurrences of lifeform text `k` among records that carry one.
pub open spec fn count_lifeform(s: Seq<Data>, k: Seq<char>) -> int
    decreases s.len(),
{
    if s.len() == 0 {
        0
    } else {
        count_lifeform(s.drop_last(), k) + if s.last().lifeform_description matches Some(t) && t@
            == k {
            1int
        } else {
            0int
        }
    }
}

/// Records that carry a lifeform description.
pub open spec fn count_with_lifeform(s: Seq<Data>) -> int
    decreases s.len(),
{
    if s.len() == 0 {
        0
    } else {
        count_with_lifeform(s.drop_last()) + if s.last().lifeform_description is Some {
            1int
        } else {
            0int
        }
    }
}

/// Occurrences of geographic-area text `k` among records that carry one.
pub open spec fn count_area(s: Seq<Data>, k: Seq<char>) -> int
    decreases s.len(),
{
    if s.len() == 0 {
        0
    } else {
        count_area(s.drop_last(), k) + if s.last().geographic_area matches Some(t) && t@ == k {
            1int
        } else {
            0int
        }
    }
}

/// Records that carry a geographic area.
pub open spec fn count_with_area(s: Seq<Data>) -> int
    decreases s.len(),
{
    if s.len() == 0 {
        0
    } else {
        count_with_area(s.drop_last()) + if s.last().geographic_area is Some {
            1int
        } else {
            0int
        }
    }
}

/// The three frequency tables of a loaded dataset.
pub struct Statistics {
    taxon_ranks: Stat<TaxonRank>,
    lifeform_descriptions: Stat<String>,
    geographic_area: Stat<String>,
}

impl Statistics {
    pub closed spec fn ranks_stat(self) -> Stat<TaxonRank> {
        self.taxon_ranks
    }

    pub closed spec fn lifeform_stat(self) -> Stat<String> {
        self.lifeform_descriptions
    }

    pub closed spec fn area_stat(self) -> Stat<String> {
        self.geographic_area
    }

    pub open spec fn wf(self) -> bool {
        self.ranks_stat().wf() && self.lifeform_stat().wf() && self.area_stat().wf()
    }

    /// The tables describe the record sequence `s` exactly.
    pub open spec fn describes(self, s: Seq<Data>) -> bool {
        &&& forall|k: TaxonRank| self.ranks_stat().count(k) == count_rank(s, k)
        &&& self.ranks_stat().total() == s.len()
        &&& forall|k: Seq<char>| self.lifeform_stat().count(k) == count_lifeform(s, k)
        &&& self.lifeform_stat().total() == count_with_lifeform(s)
        &&& forall|k: Seq<char>| self.area_stat().count(k) == count_area(s, k)
        &&& self.area_stat().total() == count_with_area(s)
    }

    /// One pass over the records: count every rank, and the lifeform and
    /// area texts of the records that carry them.
    pub fn calculate(records: &Vec<Data>) -> (r: Statistics)
        requires
            records@.len() <= u32::MAX,
        ensures
            r.wf(),
            r.describes(records@),
    {
        let ghost rs = records@;
        let mut taxon_ranks: Stat<TaxonRank> = Stat::new();
        let mut lifeform_descriptions: Stat<String> = Stat::new();
        let mut geographic_area: Stat<String> = Stat::new();
        let mut i: usize = 0;
        while i < records.len()
            invariant
                rs == records@,
                rs.len() <= u32::MAX,
                i <= rs.len(),
                taxon_ranks.wf(),
                lifeform_descriptions.wf(),
                geographic_area.wf(),
                forall|k: TaxonRank| taxon_ranks.count(k) == count_rank(rs.take(i as int), k),
                taxon_ranks.total() == i as int,
                forall|k: Seq<char>|
                    lifeform_descriptions.count(k) == count_lifeform(rs.take(i as int), k),
                lifeform_descriptions.total() == count_with_lifeform(rs.take(i as int)),
                forall|k: Seq<char>| geographic_area.count(k) == count_area(rs.take(i as int), k),
                geographic_area.total() == count_with_area(rs.take(i as int)),
            decreases rs.len() - i,
        {
            proof {
                assert(rs.take(i as int + 1).drop_last() =~= rs.take(i as int));
                assert(rs.take(i as int + 1).last() == rs[i as int]);
                lemma_counts_le_total(rs.take(i as int));
            }
            let d = &records[i];
            taxon_ranks.add(d.taxon_rank);
            match &d.lifeform_description {
                Some(t) => {
                    lifeform_descriptions.add(t.clone());
                },
                None => {},
            }
            match &d.geographic_area {
                Some(t) => {
                    geographic_area.add(t.clone());
                },
                None => {},
            }
            i = i + 1;
        }
        proof {
            assert(rs.take(rs.len() as int) =~= rs);
        }
        Statistics { taxon_ranks, lifeform_descriptions, geographic_area }
    }

    /// The rank frequency table, ordered by count descending, ties broken
    /// by the rank's fixed position.
    pub fn taxon_ranks(&self) -> (r: Vec<(TaxonRank, u32)>)
        requires
            self.wf(),
        ensures
            pairs_sorted(r@),
            wf_entries(r@),
            forall|k: TaxonRank| count_in(r@, k) == self.ranks_stat().count(k),
            total_count(r@) == self.ranks_stat().total(),
    {
        self.taxon_ranks.to_sorted()
    }

    /// The lifeform frequency table, ordered by count descending, ties
    /// broken lexicographically on the text.
    pub fn lifeform_descriptions(&self) -> (r: Vec<(String, u32)>)
        requires
            self.wf(),
        ensures
            pairs_sorted(r@),
            wf_entries(r@),
            forall|k: Seq<char>| count_in(r@, k) == self.lifeform_stat().count(k),
            total_count(r@) == self.lifeform_stat().total(),
    {
        self.lifeform_descriptions.to_sorted()
    }

    /// The geographic-area frequency table, ordered by count descending,
    /// ties broken lexicographically on the text.
    pub fn geographic_area(&self) -> (r: Vec<(String, u32)>)
        requires
            self.wf(),
        ensures
            pairs_sorted(r@),
            wf_entries(r@),
            forall|k: Seq<char>| count_in(r@, k) == self.area_stat().count(k),
            total_count(r@) == self.area_stat().total(),
    {
        self.geographic_area.to_sorted()
    }
}

/// The per-key counts of the record prefix never exceed its length, so a
/// counter stays within `u32` while the record count does.
proof fn lemma_counts_le_total(s: Seq<Data>)
    ensures
        count_with_lifeform(s) <= s.len(),
        count_with_area(s) <= s.len(),
        count_with_lifeform(s) >= 0,
        count_with_area(s) >= 0,
    decreases s.len(),
{
    if s.len() > 0 {
        lemma_counts_le_total(s.drop_last());
    }
}

} // verus!
