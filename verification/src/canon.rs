//! The canonical ordering of mixture components, and the sort and merge
//! passes that make two descriptions of the same composition structurally
//! equal: components are sorted by decreasing fraction, then decreasing
//! molecule identity (molar mass, critical state, acentric factor, a purely
//! deterministic tie-break), and adjacent entries of the identical molecule
//! are merged by summing their fractions.

use vstd::prelude::*;

use crate::FRAC_ONE;
use crate::gas::Molecule;
use vstd::relations::{sorted_by, total_ordering};
use vstd::seq_lib::{group_to_multiset_ensures, lemma_multiset_commutative, lemma_sorted_unique};

verus! {

/// Lexicographic "comes no later than" on (fraction, molecule) entries in the
/// canonical, descending order. This is a total order: two entries related
/// both ways are equal.
pub open spec fn entry_le(a: (u128, Molecule), b: (u128, Molecule)) -> bool {
    if a.0 != b.0 {
        a.0 > b.0
    } else if a.1.m != b.1.m {
        a.1.m > b.1.m
    } else if a.1.critical_state.p != b.1.critical_state.p {
        a.1.critical_state.p > b.1.critical_state.p
    } else if a.1.critical_state.t != b.1.critical_state.t {
        a.1.critical_state.t > b.1.critical_state.t
    } else if a.1.critical_state.v != b.1.critical_state.v {
        a.1.critical_state.v > b.1.critical_state.v
    } else {
        a.1.w >= b.1.w
    }
}

/// Insertion of an entry into a sequence already in canonical order.
pub open spec fn insert_sorted(x: (u128, Molecule), s: Seq<(u128, Molecule)>) -> Seq<
    (u128, Molecule),
>
    decreases s.len(),
{
    if s.len() == 0 {
        seq![x]
    } else if entry_le(x, s[0]) {
        seq![x] + s
    } else {
        seq![s[0]] + insert_sorted(x, s.drop_first())
    }
}

/// Insertion sort into the canonical order.
pub open spec fn sort_entries(s: Seq<(u128, Molecule)>) -> Seq<(u128, Molecule)>
    decreases s.len(),
{
    if s.len() == 0 {
        Seq::empty()
    } else {
        insert_sorted(s.last(), sort_entries(s.drop_last()))
    }
}

/// Merging of adjacent entries that reference the identical molecule, summing
/// their fractions. A merged entry is compared against the next entry in
/// turn, so a run of equal molecules collapses into one.
pub open spec fn merge_adjacent(s: Seq<(u128, Molecule)>) -> Seq<(u128, Molecule)>
    decreases s.len(),
{
    if s.len() <= 1 {
        s
    } else if s[0].1 == s[1].1 {
        merge_adjacent(seq![(((s[0].0 + s[1].0) as u128), s[0].1)] + s.skip(2))
    } else {
        seq![s[0]] + merge_adjacent(s.drop_first())
    }
}

/// The canonical form of a resolved component list.
pub open spec fn canonicalize(s: Seq<(u128, Molecule)>) -> Seq<(u128, Molecule)> {
    merge_adjacent(sort_entries(s))
}

/// The sum of the fractions of resolved entries.
pub open spec fn sum_entries(s: Seq<(u128, Molecule)>) -> int
    decreases s.len(),
{
    if s.len() == 0 {
        0
    } else {
        s[0].0 + sum_entries(s.drop_first())
    }
}

pub open spec fn all_positive(s: Seq<(u128, Molecule)>) -> bool {
    forall|i: int| 0 <= i < s.len() ==> (#[trigger] s[i]).0 > 0
}

/// Every entry's fraction is at most the whole.
pub open spec fn entries_bounded(s: Seq<(u128, Molecule)>) -> bool {
    forall|i: int| 0 <= i < s.len() ==> (#[trigger] s[i]).0 <= FRAC_ONE
}

/// The canonical order as a relation value, for vstd's ordering lemmas.
pub open spec fn entry_order() -> spec_fn((u128, Molecule), (u128, Molecule)) -> bool {
    |a: (u128, Molecule), b: (u128, Molecule)| entry_le(a, b)
}

/// The canonical order is total: reflexive, transitive, antisymmetric and
/// strongly connected, because the comparison key is the entire entry.
pub proof fn lemma_entry_order_total()
    ensures
        total_ordering(entry_order()),
{
    let leq = entry_order();
    assert forall|a: (u128, Molecule), b: (u128, Molecule)| #[trigger]
        leq(a, b) && leq(b, a) implies a == b by {
        assert(a.1.m == b.1.m);
        assert(a.1.critical_state == b.1.critical_state);
        assert(a.1.w == b.1.w);
    }
}

/// Insertion into a sorted sequence only rearranges: the multiset of entries
/// is the input's plus the inserted one.
pub proof fn lemma_insert_sorted_multiset(x: (u128, Molecule), s: Seq<(u128, Molecule)>)
    ensures
        insert_sorted(x, s).to_multiset() == (seq![x] + s).to_multiset(),
    decreases s.len(),
{
    broadcast use group_to_multiset_ensures;

    if s.len() == 0 {
        assert(insert_sorted(x, s) =~= seq![x] + s);
    } else if entry_le(x, s[0]) {
        assert(insert_sorted(x, s) =~= seq![x] + s);
    } else {
        lemma_insert_sorted_multiset(x, s.drop_first());
        lemma_multiset_commutative(seq![s[0]], insert_sorted(x, s.drop_first()));
        lemma_multiset_commutative(seq![s[0]], seq![x] + s.drop_first());
        lemma_multiset_commutative(seq![x], s.drop_first());
        lemma_multiset_commutative(seq![x], s);
        assert(s =~= seq![s[0]] + s.drop_first());
        lemma_multiset_commutative(seq![s[0]], s.drop_first());
        assert(insert_sorted(x, s).to_multiset() =~= (seq![x] + s).to_multiset());
    }
}

/// Sorting preserves the multiset of entries.
pub proof fn lemma_sort_entries_multiset(s: Seq<(u128, Molecule)>)
    ensures
        sort_entries(s).to_multiset() == s.to_multiset(),
    decreases s.len(),
{
    broadcast use group_to_multiset_ensures;

    if s.len() > 0 {
        lemma_sort_entries_multiset(s.drop_last());
        lemma_insert_sorted_multiset(s.last(), sort_entries(s.drop_last()));
        lemma_multiset_commutative(seq![s.last()], sort_entries(s.drop_last()));
        lemma_multiset_commutative(seq![s.last()], s.drop_last());
        assert(s =~= s.drop_last().push(s.last()));
        assert((seq![s.last()] + s.drop_last()).to_multiset() =~= s.drop_last().push(
            s.last(),
        ).to_multiset());
        assert(sort_entries(s).to_multiset() =~= s.to_multiset());
    }
}

/// Inserting into a canonically sorted sequence keeps it sorted.
pub proof fn lemma_insert_sorted_sorted(x: (u128, Molecule), s: Seq<(u128, Molecule)>)
    requires
        sorted_by(s, entry_order()),
    ensures
        sorted_by(insert_sorted(x, s), entry_order()),
    decreases s.len(),
{
    broadcast use group_to_multiset_ensures;

    let leq = entry_order();
    lemma_entry_order_total();
    if s.len() == 0 {
    } else if entry_le(x, s[0]) {
        let r = seq![x] + s;
        assert forall|i: int, j: int| 0 <= i < j < r.len() implies leq(r[i], r[j]) by {
            if i == 0 {
                assert(leq(x, s[0]));
                if j > 1 {
                    assert(leq(s[0], s[j - 1]));
                }
            } else {
                assert(leq(s[i - 1], s[j - 1]));
            }
        }
    } else {
        let df = s.drop_first();
        assert forall|i: int, j: int| 0 <= i < j < df.len() implies leq(df[i], df[j]) by {
            assert(leq(s[i + 1], s[j + 1]));
        }
        lemma_insert_sorted_sorted(x, df);
        let t = insert_sorted(x, df);
        lemma_insert_sorted_multiset(x, df);
        let r = seq![s[0]] + t;
        assert(!leq(x, s[0]));
        assert(leq(s[0], x));
        assert forall|i: int, j: int| 0 <= i < j < r.len() implies leq(r[i], r[j]) by {
            if i == 0 {
                let y = t[j - 1];
                assert(t.contains(y));
                assert(t.to_multiset().count(y) > 0);
                assert((seq![x] + df).to_multiset().count(y) > 0);
                assert((seq![x] + df).contains(y));
                let w = choose|w: int| 0 <= w < (seq![x] + df).len() && (seq![x] + df)[w] == y;
                if w == 0 {
                    assert(y == x);
                } else {
                    assert(y == s[w]);
                    assert(leq(s[0], s[w]));
                }
            } else {
                assert(leq(t[i - 1], t[j - 1]));
            }
        }
    }
}

/// The canonical sort produces a sorted sequence.
pub proof fn lemma_sort_entries_sorted(s: Seq<(u128, Molecule)>)
    ensures
        sorted_by(sort_entries(s), entry_order()),
    decreases s.len(),
{
    if s.len() > 0 {
        lemma_sort_entries_sorted(s.drop_last());
        lemma_insert_sorted_sorted(s.last(), sort_entries(s.drop_last()));
    }
}

/// Two sequences with the same entries sort to the same sequence: the heart
/// of order-independence.
pub proof fn lemma_sort_entries_permutation(s: Seq<(u128, Molecule)>, t: Seq<(u128, Molecule)>)
    requires
        s.to_multiset() == t.to_multiset(),
    ensures
        sort_entries(s) == sort_entries(t),
{
    lemma_sort_entries_multiset(s);
    lemma_sort_entries_multiset(t);
    lemma_sort_entries_sorted(s);
    lemma_sort_entries_sorted(t);
    lemma_entry_order_total();
    lemma_sorted_unique(sort_entries(s), sort_entries(t), entry_order());
}

/// A bound on every entry carries over to any rearrangement.
pub proof fn lemma_bounded_from_multiset(s: Seq<(u128, Molecule)>, t: Seq<(u128, Molecule)>)
    requires
        s.to_multiset() == t.to_multiset(),
        entries_bounded(s),
    ensures
        entries_bounded(t),
{
    broadcast use group_to_multiset_ensures;

    assert forall|i: int| 0 <= i < t.len() implies (#[trigger] t[i]).0 <= FRAC_ONE by {
        assert(t.contains(t[i]));
        assert(t.to_multiset().count(t[i]) > 0);
        assert(s.to_multiset().count(t[i]) > 0);
        assert(s.contains(t[i]));
        let j = choose|j: int| 0 <= j < s.len() && s[j] == t[i];
        assert(s[j].0 <= FRAC_ONE);
    }
}

/// Bounded entries have a sum bounded by the length times the whole.
pub proof fn lemma_sum_entries_le_len(s: Seq<(u128, Molecule)>)
    requires
        entries_bounded(s),
    ensures
        sum_entries(s) <= s.len() * FRAC_ONE,
    decreases s.len(),
{
    if s.len() == 0 {
    } else {
        assert(entries_bounded(s.drop_first())) by {
            assert forall|i: int| 0 <= i < s.drop_first().len() implies (#[trigger] s.drop_first()[
                i
            ]).0 <= FRAC_ONE by {
                assert(s.drop_first()[i] == s[i + 1]);
            }
        }
        lemma_sum_entries_le_len(s.drop_first());
        assert(s[0].0 <= FRAC_ONE);
        assert(s.len() * FRAC_ONE == (s.drop_first().len() * FRAC_ONE) + FRAC_ONE) by (
        nonlinear_arith)
            requires
                s.len() == s.drop_first().len() + 1,
        ;
    }
}

/// Every entry's fraction is bounded by the sum of the whole sequence.
pub proof fn lemma_entry_le_sum(s: Seq<(u128, Molecule)>, i: int)
    requires
        0 <= i < s.len(),
    ensures
        s[i].0 <= sum_entries(s),
        sum_entries(s) >= 0,
    decreases s.len(),
{
    lemma_sum_entries_nonneg(s.drop_first());
    if i > 0 {
        lemma_entry_le_sum(s.drop_first(), i - 1);
    }
}

pub proof fn lemma_sum_entries_nonneg(s: Seq<(u128, Molecule)>)
    ensures
        sum_entries(s) >= 0,
    decreases s.len(),
{
    if s.len() > 0 {
        lemma_sum_entries_nonneg(s.drop_first());
    }
}

/// Splitting a sum at an index.
pub proof fn lemma_sum_entries_take_skip(s: Seq<(u128, Molecule)>, k: int)
    requires
        0 <= k <= s.len(),
    ensures
        sum_entries(s) == sum_entries(s.take(k)) + sum_entries(s.skip(k)),
    decreases k,
{
    if k == 0 {
        assert(s.take(0) =~= Seq::empty());
        assert(s.skip(0) =~= s);
    } else {
        lemma_sum_entries_take_skip(s, k - 1);
        assert(s.take(k) =~= s.take(k - 1).push(s[k - 1]));
        lemma_sum_entries_push(s.take(k - 1), s[k - 1]);
        assert(s.skip(k - 1)[0] == s[k - 1]);
        assert(s.skip(k - 1).drop_first() =~= s.skip(k));
        assert(sum_entries(s.skip(k - 1)) == s[k - 1].0 + sum_entries(s.skip(k)));
    }
}

pub proof fn lemma_sum_entries_push(s: Seq<(u128, Molecule)>, x: (u128, Molecule))
    ensures
        sum_entries(s.push(x)) == sum_entries(s) + x.0,
    decreases s.len(),
{
    if s.len() == 0 {
        assert(s.push(x).drop_first() =~= Seq::<(u128, Molecule)>::empty());
        assert(sum_entries(Seq::<(u128, Molecule)>::empty()) == 0);
        assert(s.push(x)[0] == x);
        assert(sum_entries(s.push(x)) == x.0 + sum_entries(Seq::<(u128, Molecule)>::empty()));
    } else {
        assert(s.push(x).drop_first() =~= s.drop_first().push(x));
        lemma_sum_entries_push(s.drop_first(), x);
        assert(s.push(x)[0] == s[0]);
        assert(sum_entries(s.push(x)) == s[0].0 + sum_entries(s.drop_first().push(x)));
    }
}

/// The executable comparison realizing [`entry_le`].
pub(crate) fn entry_le_exec(a: &(u128, Molecule), b: &(u128, Molecule)) -> (r: bool)
    ensures
        r == entry_le(*a, *b),
{
    if a.0 != b.0 {
        a.0 > b.0
    } else if a.1.m != b.1.m {
        a.1.m > b.1.m
    } else if a.1.critical_state.p != b.1.critical_state.p {
        a.1.critical_state.p > b.1.critical_state.p
    } else if a.1.critical_state.t != b.1.critical_state.t {
        a.1.critical_state.t > b.1.critical_state.t
    } else if a.1.critical_state.v != b.1.critical_state.v {
        a.1.critical_state.v > b.1.critical_state.v
    } else {
        a.1.w >= b.1.w
    }
}

/// Inserts one entry into a vector kept in canonical order.
fn insert_entry(v: &mut Vec<(u128, Molecule)>, x: (u128, Molecule))
    ensures
        final(v)@ == insert_sorted(x, old(v)@),
{
    let ghost s = v@;
    proof {
        assert(s.take(0) =~= Seq::empty());
        assert(s.skip(0) =~= s);
        assert(Seq::<(u128, Molecule)>::empty() + insert_sorted(x, s) =~= insert_sorted(x, s));
    }
    let mut idx: usize = 0;
    while idx < v.len() && !entry_le_exec(&x, &v[idx])
        invariant
            0 <= idx <= s.len(),
            v@ == s,
            insert_sorted(x, s) == s.take(idx as int) + insert_sorted(x, s.skip(idx as int)),
        decreases s.len() - idx,
    {
        proof {
            let k = idx as int;
            assert(s.skip(k)[0] == s[k]);
            assert(s.skip(k).drop_first() =~= s.skip(k + 1));
            assert(s.take(k) + seq![s[k]] =~= s.take(k + 1));
            assert(insert_sorted(x, s.skip(k)) == seq![s[k]] + insert_sorted(x, s.skip(k + 1)));
            assert(s.take(k) + (seq![s[k]] + insert_sorted(x, s.skip(k + 1))) =~= s.take(k + 1)
                + insert_sorted(x, s.skip(k + 1)));
        }
        idx = idx + 1;
    }
    proof {
        let k = idx as int;
        if idx < v.len() {
            assert(insert_sorted(x, s.skip(k)) == seq![x] + s.skip(k));
        } else {
            assert(s.skip(k) =~= Seq::empty());
        }
        assert(s.take(k) + (seq![x] + s.skip(k)) =~= s.insert(k, x));
    }
    v.insert(idx, x);
}

/// Sorts resolved entries into the canonical order.
pub(crate) fn sort_canonical(v: &Vec<(u128, Molecule)>) -> (r: Vec<(u128, Molecule)>)
    ensures
        r@ == sort_entries(v@),
{
    let mut out: Vec<(u128, Molecule)> = Vec::new();
    let mut i: usize = 0;
    while i < v.len()
        invariant
            0 <= i <= v@.len(),
            out@ == sort_entries(v@.take(i as int)),
        decreases v@.len() - i,
    {
        insert_entry(&mut out, v[i]);
        proof {
            let k = i as int;
            assert(v@.take(k + 1).drop_last() =~= v@.take(k));
            assert(v@.take(k + 1).last() == v@[k]);
        }
        i = i + 1;
    }
    proof {
        assert(v@.take(v@.len() as int) =~= v@);
    }
    out
}

/// Merges adjacent entries of the identical molecule, summing fractions.
pub(crate) fn merge_canonical(v: &Vec<(u128, Molecule)>) -> (r: Vec<(u128, Molecule)>)
    requires
        sum_entries(v@) < 0x1_0000_0000_0000_0000_0000_0000_0000_0000,
    ensures
        r@ == merge_adjacent(v@),
        sum_entries(r@) == sum_entries(v@),
{
    let ghost s = v@;
    proof {
        assert(s.skip(0) =~= s);
        lemma_sum_entries_nonneg(s);
    }
    let mut out: Vec<(u128, Molecule)> = Vec::new();
    let mut i: usize = 0;
    while i < v.len()
        invariant
            0 <= i <= s.len(),
            v@ == s,
            sum_entries(s) < 0x1_0000_0000_0000_0000_0000_0000_0000_0000,
            sum_entries(out@) + sum_entries(s.skip(i as int)) == sum_entries(s),
            out@.len() == 0 ==> i == 0 && merge_adjacent(s) == merge_adjacent(s.skip(i as int)),
            out@.len() > 0 ==> merge_adjacent(s) == out@.drop_last() + merge_adjacent(
                seq![out@.last()] + s.skip(i as int),
            ),
        decreases s.len() - i,
    {
        let e = v[i];
        proof {
            let k = i as int;
            assert(s.skip(k)[0] == s[k]);
            assert(s.skip(k).drop_first() =~= s.skip(k + 1));
            lemma_sum_entries_nonneg(s.skip(k + 1));
            lemma_sum_entries_nonneg(out@);
        }
        if out.len() > 0 && out[out.len() - 1].1 == e.1 {
            let ghost before = out@;
            let last = out.len() - 1;
            proof {
                lemma_entry_le_sum(before, last as int);
                let rest = seq![before.last()] + s.skip(i as int);
                assert(rest[1] == e);
                assert(rest[0].1 == rest[1].1);
                assert(rest.skip(2) =~= s.skip(i as int + 1));
                assert(merge_adjacent(rest) == merge_adjacent(
                    seq![(((rest[0].0 + rest[1].0) as u128), rest[0].1)] + rest.skip(2),
                ));
                assert(seq![(((rest[0].0 + rest[1].0) as u128), rest[0].1)] + rest.skip(2)
                    =~= seq![(((before.last().0 + e.0) as u128), before.last().1)] + s.skip(
                    i as int + 1,
                ));
            }
            let merged: (u128, Molecule) = (out[last].0 + e.0, out[last].1);
            out.set(last, merged);
            proof {
                assert(out@ =~= before.update(last as int, merged));
                assert(out@.drop_last() =~= before.drop_last());
                assert(out@.last() == merged);
                lemma_sum_entries_push(before.drop_last(), before.last());
                assert(before.drop_last().push(before.last()) =~= before);
                lemma_sum_entries_push(out@.drop_last(), out@.last());
                assert(out@.drop_last().push(out@.last()) =~= out@);
            }
        } else {
            let ghost before = out@;
            if out.len() > 0 {
                proof {
                    let rest = seq![before.last()] + s.skip(i as int);
                    assert(rest[1] == e);
                    assert(rest[0].1 != rest[1].1);
                    assert(rest.drop_first() =~= seq![e] + s.skip(i as int + 1));
                    assert(merge_adjacent(rest) == seq![rest[0]] + merge_adjacent(
                        rest.drop_first(),
                    ));
                }
            }
            out.push(e);
            proof {
                assert(out@.drop_last() =~= before);
                assert(out@.last() == e);
                lemma_sum_entries_push(before, e);
                if before.len() == 0 {
                    assert(seq![e] + s.skip(i as int + 1) =~= s.skip(i as int));
                } else {
                    assert(before.drop_last() + (seq![before.last()] + merge_adjacent(
                        seq![e] + s.skip(i as int + 1),
                    )) =~= out@.drop_last() + merge_adjacent(seq![e] + s.skip(i as int + 1)));
                }
            }
        }
        i = i + 1;
    }
    proof {
        assert(s.skip(s.len() as int) =~= Seq::empty());
        if out@.len() == 0 {
            assert(merge_adjacent(s) == merge_adjacent(Seq::empty()));
            assert(merge_adjacent(Seq::<(u128, Molecule)>::empty()).len() == 0);
            assert(out@ =~= merge_adjacent(s));
        } else {
            assert((seq![out@.last()] + Seq::empty()) =~= seq![out@.last()]);
            assert(merge_adjacent(seq![out@.last()]) == seq![out@.last()]);
            assert(out@.drop_last() + seq![out@.last()] =~= out@);
        }
    }
    out
}

} // verus!
