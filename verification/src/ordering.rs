use vstd::prelude::*;
use vstd::relations::*;
use vstd::seq_lib::*;

verus! {

/// The usual order on slots, as a relation.
pub open spec fn at_most() -> spec_fn(u64, u64) -> bool {
    |a: u64, b: u64| a <= b
}

/// The values of `s` in ascending order.
pub open spec fn ascending(s: Seq<u64>) -> Seq<u64> {
    s.sort_by(at_most())
}

/// How many values of `s` satisfy `pred`.
pub open spec fn count_where(s: Seq<u64>, pred: spec_fn(u64) -> bool) -> nat
    decreases s.len(),
{
    if s.len() == 0 {
        0
    } else {
        count_where(s.drop_last(), pred) + if pred(s.last()) {
            1nat
        } else {
            0nat
        }
    }
}

proof fn lemma_at_most_is_total()
    ensures
        total_ordering(at_most()),
{
}

/// Whatever is in ascending order and holds the values of `s` is `ascending(s)`.
pub proof fn lemma_ascending_is_unique(s: Seq<u64>, t: Seq<u64>)
    requires
        s.to_multiset() == t.to_multiset(),
        forall|i: int, j: int| 0 <= i <= j < t.len() ==> t[i] <= t[j],
    ensures
        t == ascending(s),
{
    lemma_at_most_is_total();
    s.lemma_sort_by_ensures(at_most());
    assert(sorted_by(t, at_most()));
    lemma_sorted_unique(t, ascending(s), at_most());
}

/// `ascending(s)` is in ascending order and holds exactly the values of `s`.
pub proof fn lemma_ascending(s: Seq<u64>)
    ensures
        ascending(s).to_multiset() == s.to_multiset(),
        ascending(s).len() == s.len(),
        forall|i: int, j: int|
            0 <= i <= j < s.len() ==> #[trigger] ascending(s)[i] <= #[trigger] ascending(s)[j],
        forall|x: u64| ascending(s).contains(x) <==> s.contains(x),
{
    broadcast use vstd::seq_lib::group_to_multiset_ensures;

    lemma_at_most_is_total();
    s.lemma_sort_by_ensures(at_most());
    let t = ascending(s);
    assert(t.to_multiset() =~= s.to_multiset());
    assert(t.len() == t.to_multiset().len());
    assert(s.len() == s.to_multiset().len());
    assert forall|i: int, j: int| 0 <= i <= j < s.len() implies #[trigger] t[i]
        <= #[trigger] t[j] by {
        if i < j {
            assert(at_most()(t[i], t[j]));
        }
    }
    assert forall|x: u64| t.contains(x) <==> s.contains(x) by {
        assert(t.contains(x) <==> t.to_multiset().count(x) > 0);
        assert(s.contains(x) <==> s.to_multiset().count(x) > 0);
    }
}

/// Sorts `values` in place, in ascending order.
pub fn sort_ascending(values: &mut Vec<u64>)
    ensures
        final(values)@ == ascending(old(values)@),
{
    let ghost start = values@;
    let len: usize = values.len();
    let mut done: usize = 0;
    while done < len
        invariant
            done <= len,
            len == values@.len(),
            values@.to_multiset() == start.to_multiset(),
            forall|i: int, j: int| 0 <= i <= j < done ==> values@[i] <= values@[j],
        decreases len - done,
    {
        sink(values, done);
        done = done + 1;
    }
    proof {
        lemma_ascending_is_unique(start, values@);
    }
}

/// Moves `values[at]` down past every larger value in front of it.
fn sink(values: &mut Vec<u64>, at: usize)
    requires
        at < old(values)@.len(),
        forall|i: int, j: int| 0 <= i <= j < at ==> old(values)@[i] <= old(values)@[j],
    ensures
        final(values)@.len() == old(values)@.len(),
        final(values)@.to_multiset() == old(values)@.to_multiset(),
        forall|i: int, j: int| 0 <= i <= j <= at ==> final(values)@[i] <= final(values)@[j],
{
    let ghost start = values@;
    let mut hole: usize = at;
    while hole > 0 && values[hole - 1] > values[hole]
        invariant
            hole <= at < values@.len(),
            values@.len() == start.len(),
            values@.to_multiset() == start.to_multiset(),
            forall|i: int, j: int|
                0 <= i <= j <= at && i != hole && j != hole ==> values@[i] <= values@[j],
            forall|j: int| hole <= j <= at ==> values@[hole as int] <= values@[j],
        decreases hole,
    {
        let ghost before = values@;
        let low: u64 = values[hole];
        let high: u64 = values[hole - 1];
        values.set(hole, high);
        values.set(hole - 1, low);
        proof {
            lemma_swap_keeps_values(before, values@, hole - 1, hole as int);
        }
        hole = hole - 1;
    }
}

proof fn lemma_swap_keeps_values(s: Seq<u64>, t: Seq<u64>, i: int, j: int)
    requires
        0 <= i < j < s.len(),
        t == s.update(j, s[i]).update(i, s[j]),
    ensures
        t.to_multiset() == s.to_multiset(),
{
    broadcast use vstd::multiset::group_multiset_axioms;
    broadcast use vstd::seq_lib::group_to_multiset_ensures;

    vstd::seq_lib::to_multiset_update(s, j, s[i]);
    vstd::seq_lib::to_multiset_update(s.update(j, s[i]), i, s[j]);
    assert(t.to_multiset() =~= s.to_multiset());
}

proof fn lemma_count_of_values(s: Seq<u64>, pred: spec_fn(u64) -> bool)
    ensures
        count_where(s, pred) == s.to_multiset().filter(pred).len(),
    decreases s.len(),
{
    broadcast use vstd::multiset::group_multiset_axioms;
    broadcast use vstd::seq_lib::group_to_multiset_ensures;

    if s.len() == 0 {
        assert(s.to_multiset().filter(pred) =~= vstd::multiset::Multiset::empty());
    } else {
        let rest = s.drop_last();
        lemma_count_of_values(rest, pred);
        assert(s =~= rest.push(s.last()));
        let old_values = rest.to_multiset().filter(pred);
        if pred(s.last()) {
            assert(s.to_multiset().filter(pred) =~= old_values.insert(s.last()));
        } else {
            assert(s.to_multiset().filter(pred) =~= old_values);
        }
    }
}

/// A count goes by the values alone, not by their order.
pub proof fn lemma_count_ignores_order(s: Seq<u64>, t: Seq<u64>, pred: spec_fn(u64) -> bool)
    requires
        s.to_multiset() == t.to_multiset(),
    ensures
        count_where(s, pred) == count_where(t, pred),
{
    lemma_count_of_values(s, pred);
    lemma_count_of_values(t, pred);
}

/// Only values in front of position `end` can count where none from there on does.
pub proof fn lemma_count_in_front(s: Seq<u64>, pred: spec_fn(u64) -> bool, end: int)
    requires
        0 <= end,
        forall|i: int| end <= i < s.len() ==> !pred(#[trigger] s[i]),
    ensures
        count_where(s, pred) <= end,
    decreases s.len(),
{
    if s.len() > 0 {
        let rest = s.drop_last();
        if s.len() <= end {
            lemma_count_in_front(rest, pred, end - 1);
        } else {
            assert(!pred(s[s.len() - 1]));
            lemma_count_in_front(rest, pred, end);
        }
    }
}

/// Only values from position `start` on can count where none in front of it does.
pub proof fn lemma_count_behind(s: Seq<u64>, pred: spec_fn(u64) -> bool, start: int)
    requires
        0 <= start <= s.len(),
        forall|i: int| 0 <= i < start ==> !pred(#[trigger] s[i]),
    ensures
        count_where(s, pred) <= s.len() - start,
    decreases s.len(),
{
    if s.len() > 0 {
        let rest = s.drop_last();
        if start == s.len() {
            assert(!pred(s[s.len() - 1]));
            lemma_count_behind(rest, pred, start - 1);
        } else {
            lemma_count_behind(rest, pred, start);
        }
    }
}

/// What a filtering map keeps, by position: the kept positions in ascending
/// order, none left out that has a value.
pub proof fn lemma_kept_positions<A, B>(s: Seq<A>, f: spec_fn(A) -> Option<B>) -> (kept: Seq<int>)
    ensures
        kept.len() == s.filter_map(f).len(),
        forall|k: int|
            0 <= k < kept.len() ==> 0 <= #[trigger] kept[k] < s.len() && f(s[kept[k]]) == Some(
                s.filter_map(f)[k],
            ),
        forall|k: int, l: int| 0 <= k < l < kept.len() ==> #[trigger] kept[k] < #[trigger] kept[l],
        forall|i: int| 0 <= i < s.len() && f(#[trigger] s[i]) is Some ==> kept.contains(i),
    decreases s.len(),
{
    if s.len() == 0 {
        Seq::empty()
    } else {
        let rest = s.drop_last();
        let end = s.len() - 1;
        let before = lemma_kept_positions(rest, f);
        let kept = if f(s[end]) is Some {
            before.push(end)
        } else {
            before
        };
        assert forall|k: int| 0 <= k < kept.len() implies 0 <= #[trigger] kept[k] < s.len() && f(
            s[kept[k]],
        ) == Some(s.filter_map(f)[k]) by {
            if k < before.len() {
                assert(kept[k] == before[k]);
                assert(rest[before[k]] == s[before[k]]);
            }
        }
        assert forall|i: int| 0 <= i < s.len() && f(#[trigger] s[i]) is Some implies kept.contains(
            i,
        ) by {
            if i < end {
                assert(rest[i] == s[i]);
                assert(before.contains(i));
                let k = choose|k: int| 0 <= k < before.len() && before[k] == i;
                assert(kept[k] == i);
            } else {
                assert(kept[before.len() as int] == i);
            }
        }
        kept
    }
}

/// A filtering map that finds a value everywhere keeps every position.
pub proof fn lemma_all_kept<A, B>(s: Seq<A>, f: spec_fn(A) -> Option<B>)
    requires
        forall|i: int| 0 <= i < s.len() ==> f(#[trigger] s[i]) is Some,
    ensures
        s.filter_map(f).len() == s.len(),
        forall|i: int| 0 <= i < s.len() ==> f(#[trigger] s[i]) == Some(s.filter_map(f)[i]),
    decreases s.len(),
{
    if s.len() > 0 {
        let rest = s.drop_last();
        assert forall|i: int| 0 <= i < rest.len() implies f(#[trigger] rest[i]) is Some by {
            assert(rest[i] == s[i]);
        }
        lemma_all_kept(rest, f);
        assert(f(s[s.len() - 1]) is Some);
        assert forall|i: int| 0 <= i < s.len() implies f(#[trigger] s[i]) == Some(
            s.filter_map(f)[i],
        ) by {
            if i < rest.len() {
                assert(rest[i] == s[i]);
            }
        }
    }
}

/// A filtering map works on each part of a sequence by itself.
pub proof fn lemma_filter_map_of_parts<A, B>(s: Seq<A>, t: Seq<A>, f: spec_fn(A) -> Option<B>)
    ensures
        (s + t).filter_map(f) == s.filter_map(f) + t.filter_map(f),
    decreases t.len(),
{
    if t.len() == 0 {
        assert(s + t =~= s);
        assert(s.filter_map(f) + t.filter_map(f) =~= s.filter_map(f));
    } else {
        lemma_filter_map_of_parts(s, t.drop_last(), f);
        assert((s + t).drop_last() =~= s + t.drop_last());
        assert((s + t).last() == t.last());
        assert((s + t).filter_map(f) =~= s.filter_map(f) + t.filter_map(f));
    }
}

/// Two sequences of the same values still have the same values after a map.
pub proof fn lemma_map_keeps_values(s: Seq<u64>, t: Seq<u64>, f: spec_fn(u64) -> u64)
    requires
        s.to_multiset() == t.to_multiset(),
    ensures
        s.map_values(f).to_multiset() == t.map_values(f).to_multiset(),
    decreases s.len(),
{
    broadcast use vstd::multiset::group_multiset_axioms;
    broadcast use vstd::seq_lib::group_to_multiset_ensures;

    assert(s.len() == s.to_multiset().len());
    assert(t.len() == t.to_multiset().len());
    if s.len() == 0 {
        assert(s.map_values(f) =~= t.map_values(f));
    } else {
        let value = s.last();
        assert(s.to_multiset().count(value) > 0) by {
            assert(s.contains(value));
        }
        assert(t.contains(value));
        let i = choose|i: int| 0 <= i < t.len() && t[i] == value;
        let rest = s.drop_last();
        let other = t.remove(i);
        assert(s =~= rest.push(value));
        assert(other.to_multiset() =~= t.to_multiset().remove(value)) by {
            vstd::seq_lib::to_multiset_remove(t, i);
        }
        assert(rest.to_multiset() =~= s.to_multiset().remove(value));
        lemma_map_keeps_values(rest, other, f);
        assert(s.map_values(f) =~= rest.map_values(f).push(f(value)));
        assert(t.map_values(f)[i] == f(value));
        assert(t.map_values(f).remove(i) =~= other.map_values(f));
        vstd::seq_lib::to_multiset_remove(t.map_values(f), i);
        assert(s.map_values(f).to_multiset() =~= t.map_values(f).to_multiset());
    }
}

} // verus!
