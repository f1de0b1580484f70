//! Orders, sorting and the removal of duplicates.

use vstd::prelude::*;

use crate::text::chars_of;

verus! {

/// The text `left` stands before `right` in a dictionary by code points.
pub open spec fn text_before(left: Seq<char>, right: Seq<char>) -> bool
    decreases left.len(),
{
    if right.len() == 0 {
        false
    } else if left.len() == 0 {
        true
    } else if left[0] != right[0] {
        left[0] < right[0]
    } else {
        text_before(left.drop_first(), right.drop_first())
    }
}

/// The dictionary order is strict: no text stands before itself, and of two different
/// texts exactly one stands before the other.
pub proof fn text_order_is_strict(left: Seq<char>, right: Seq<char>)
    ensures
        !(text_before(left, right) && text_before(right, left)),
        left != right ==> text_before(left, right) || text_before(right, left),
        left == right ==> !text_before(left, right),
    decreases left.len(),
{
    if left.len() > 0 && right.len() > 0 && left[0] == right[0] {
        text_order_is_strict(left.drop_first(), right.drop_first());
        if left.drop_first() == right.drop_first() {
            assert(left =~= seq![left[0]] + left.drop_first());
            assert(right =~= seq![right[0]] + right.drop_first());
        }
    } else if left.len() == 0 && right.len() == 0 {
        assert(left =~= right);
    } else if left.len() > 0 && right.len() > 0 {
        assert(left[0] < right[0] || right[0] < left[0]);
    }
}

/// The dictionary order is transitive.
pub proof fn text_order_is_transitive(a: Seq<char>, b: Seq<char>, c: Seq<char>)
    requires
        text_before(a, b),
        text_before(b, c),
    ensures
        text_before(a, c),
    decreases a.len(),
{
    if a.len() > 0 && b.len() > 0 && c.len() > 0 && a[0] == b[0] && b[0] == c[0] {
        text_order_is_transitive(a.drop_first(), b.drop_first(), c.drop_first());
    }
}

pub fn text_less(left: &str, right: &str) -> (less: bool)
    ensures
        less == text_before(left@, right@),
{
    let a = chars_of(left);
    let b = chars_of(right);
    let mut i: usize = 0;
    assert(a@.skip(0) =~= left@);
    assert(b@.skip(0) =~= right@);
    while i < a.len() && i < b.len()
        invariant
            i <= a@.len(),
            i <= b@.len(),
            text_before(left@, right@) == text_before(a@.skip(i as int), b@.skip(i as int)),
        decreases a@.len() - i,
    {
        if a[i] != b[i] {
            return a[i] < b[i];
        }
        assert(a@.skip(i as int).drop_first() =~= a@.skip(i + 1));
        assert(b@.skip(i as int).drop_first() =~= b@.skip(i + 1));
        i = i + 1;
    }
    i < b.len()
}

/// No number stands after a greater one.
pub open spec fn ascending(s: Seq<i64>) -> bool {
    forall|i: int, j: int| 0 <= i <= j < s.len() ==> s[i] <= s[j]
}

/// Each number is greater than the one before it.
pub open spec fn strictly_ascending(s: Seq<i64>) -> bool {
    forall|i: int, j: int| 0 <= i < j < s.len() ==> s[i] < s[j]
}

fn insertion_point(sorted: &Vec<i64>, value: i64) -> (at: usize)
    requires
        strictly_ascending(sorted@),
    ensures
        at <= sorted@.len(),
        forall|i: int| 0 <= i < at ==> sorted@[i] < value,
        forall|i: int| at <= i < sorted@.len() ==> value <= sorted@[i],
{
    let mut at: usize = 0;
    while at < sorted.len() && sorted[at] < value
        invariant
            at <= sorted@.len(),
            forall|i: int| 0 <= i < at ==> sorted@[i] < value,
        decreases sorted@.len() - at,
    {
        at = at + 1;
    }
    at
}

/// The given numbers in ascending order, each once.
pub fn sorted_unique(values: &Vec<i64>) -> (out: Vec<i64>)
    ensures
        strictly_ascending(out@),
        forall|x: i64| out@.contains(x) <==> values@.contains(x),
{
    let mut out: Vec<i64> = Vec::new();
    let mut i: usize = 0;
    while i < values.len()
        invariant
            i <= values@.len(),
            strictly_ascending(out@),
            forall|x: i64| out@.contains(x) <==> values@.take(i as int).contains(x),
        decreases values@.len() - i,
    {
        let value = values[i];
        let at = insertion_point(&out, value);
        let ghost before = out@;
        let ghost seen = values@.take(i as int);
        let ghost taken = values@.take(i + 1);
        assert(taken =~= seen.push(value));
        if at == out.len() || out[at] != value {
            out.insert(at, value);
            assert forall|x: i64| out@.contains(x) <==> taken.contains(x) by {
                if out@.contains(x) {
                    let k = choose|k: int| 0 <= k < out@.len() && out@[k] == x;
                    if k < at {
                        assert(before[k] == x);
                    } else if k > at {
                        assert(before[k - 1] == x);
                    }
                    if k != at {
                        assert(before.contains(x));
                        let m = choose|m: int| 0 <= m < seen.len() && seen[m] == x;
                        assert(taken[m] == x);
                    } else {
                        assert(taken[i as int] == x);
                    }
                }
                if taken.contains(x) {
                    let m = choose|m: int| 0 <= m < taken.len() && taken[m] == x;
                    if m < i {
                        assert(seen[m] == x);
                        assert(before.contains(x));
                        let k = choose|k: int| 0 <= k < before.len() && before[k] == x;
                        if k < at {
                            assert(out@[k] == x);
                        } else {
                            assert(out@[k + 1] == x);
                        }
                    } else {
                        assert(out@[at as int] == x);
                    }
                }
            }
        } else {
            assert forall|x: i64| out@.contains(x) <==> taken.contains(x) by {
                if out@.contains(x) {
                    let m = choose|m: int| 0 <= m < seen.len() && seen[m] == x;
                    assert(taken[m] == x);
                }
                if taken.contains(x) {
                    let m = choose|m: int| 0 <= m < taken.len() && taken[m] == x;
                    if m < i {
                        assert(seen[m] == x);
                    } else {
                        assert(out@[at as int] == x);
                    }
                }
            }
        }
        i = i + 1;
    }
    assert(values@.take(i as int) =~= values@);
    out
}

/// There is one way only to put a set of numbers in ascending order, each once.
pub proof fn strictly_ascending_is_unique(left: Seq<i64>, right: Seq<i64>)
    requires
        strictly_ascending(left),
        strictly_ascending(right),
        forall|x: i64| left.contains(x) <==> right.contains(x),
    ensures
        left == right,
    decreases left.len(),
{
    if left.len() == 0 {
        if right.len() > 0 {
            assert(right.contains(right[0]));
        }
        assert(left =~= right);
    } else {
        assert(left.contains(left.last()));
        let k = choose|k: int| 0 <= k < right.len() && right[k] == left.last();
        assert(right.contains(right.last()));
        let m = choose|m: int| 0 <= m < left.len() && left[m] == right.last();
        assert(left.last() == right.last()) by {
            if k < right.len() - 1 {
                assert(right[k] < right.last());
                if m < left.len() - 1 {
                    assert(left[m] < left.last());
                }
            }
        }
        let l = left.drop_last();
        let r = right.drop_last();
        assert forall|x: i64| l.contains(x) <==> r.contains(x) by {
            if l.contains(x) {
                let a = choose|a: int| 0 <= a < l.len() && l[a] == x;
                assert(left[a] == x && left[a] < left.last());
                assert(left.contains(x));
                let b = choose|b: int| 0 <= b < right.len() && right[b] == x;
                assert(r[b] == x);
            }
            if r.contains(x) {
                let a = choose|a: int| 0 <= a < r.len() && r[a] == x;
                assert(right[a] == x && right[a] < right.last());
                assert(right.contains(x));
                let b = choose|b: int| 0 <= b < left.len() && left[b] == x;
                assert(l[b] == x);
            }
        }
        strictly_ascending_is_unique(l, r);
        assert(left =~= l.push(left.last()));
        assert(right =~= r.push(right.last()));
    }
}

/// Whether the number occurs among the given ones.
pub fn contains_number(values: &Vec<i64>, value: i64) -> (found: bool)
    ensures
        found == values@.contains(value),
{
    let mut i: usize = 0;
    while i < values.len()
        invariant
            i <= values@.len(),
            forall|j: int| 0 <= j < i ==> values@[j] != value,
        decreases values@.len() - i,
    {
        if values[i] == value {
            assert(values@[i as int] == value);
            return true;
        }
        i = i + 1;
    }
    false
}

/// An order of values, in which different values may be on a par.
pub trait Ranking<T> {
    /// `left` belongs before `right`.
    spec fn ranks_before(left: T, right: T) -> bool;

    /// The order is strict, and two values that are on a par with a third are on a par.
    proof fn ranking_is_order(a: T, b: T, c: T)
        ensures
            Self::ranks_before(a, b) ==> !Self::ranks_before(b, a),
            !Self::ranks_before(b, a) && !Self::ranks_before(c, b) ==> !Self::ranks_before(c, a),
    ;

    fn comes_before(left: &T, right: &T) -> (before: bool)
        ensures
            before == Self::ranks_before(*left, *right),
    ;
}

/// No value stands after one that belongs behind it.
pub open spec fn is_ranked<T, R: Ranking<T>>(items: Seq<T>) -> bool {
    forall|i: int, j: int| 0 <= i < j < items.len() ==> !R::ranks_before(items[j], items[i])
}

/// The positions of a sequence in another order: each occurs once.
pub open spec fn is_reordering(places: Seq<int>, count: nat) -> bool {
    &&& places.len() == count
    &&& places.no_duplicates()
    &&& forall|place: int| 0 <= place < count <==> #[trigger] places.contains(place)
}

/// The places from which a sequence in order was taken: values that are on a par keep the order
/// that they had.
pub open spec fn keeps_order<T, R: Ranking<T>>(
    items: Seq<T>,
    sorted: Seq<T>,
    places: Seq<int>,
) -> bool {
    &&& sorted.len() == items.len()
    &&& is_reordering(places, items.len())
    &&& forall|i: int| 0 <= i < sorted.len() ==> #[trigger] sorted[i] == items[places[i]]
    &&& forall|i: int, j: int|
        0 <= i < j < sorted.len() && !R::ranks_before(sorted[i], sorted[j]) ==> places[i]
            < places[j]
}

/// The values in order, and values that are on a par in the order that they had before.
pub open spec fn is_sorted_from<T, R: Ranking<T>>(items: Seq<T>, sorted: Seq<T>) -> bool {
    is_ranked::<T, R>(sorted) && exists|places: Seq<int>|
        #[trigger] keeps_order::<T, R>(items, sorted, places)
}

fn insert_ranked<T, R: Ranking<T>>(items: &mut Vec<T>, item: T) -> (at: usize)
    requires
        is_ranked::<T, R>(old(items)@),
    ensures
        is_ranked::<T, R>(final(items)@),
        at <= old(items)@.len(),
        final(items)@ == old(items)@.insert(at as int, item),
        forall|i: int| at <= i < old(items)@.len() ==> R::ranks_before(
            item,
            #[trigger] old(items)@[i],
        ),
{
    let mut at: usize = items.len();
    while at > 0 && R::comes_before(&item, &items[at - 1])
        invariant
            at <= items@.len(),
            forall|i: int| at <= i < items@.len() ==> R::ranks_before(item, #[trigger] items@[i]),
        decreases at,
    {
        at = at - 1;
    }
    let ghost before = items@;
    proof {
        assert forall|i: int| 0 <= i < at implies !R::ranks_before(item, #[trigger] before[i]) by {
            if i < at - 1 {
                R::ranking_is_order(before[i], before[at - 1], item);
            }
        }
        assert forall|i: int| at <= i < before.len() implies !R::ranks_before(
            #[trigger] before[i],
            item,
        ) by {
            R::ranking_is_order(item, before[i], item);
        }
    }
    items.insert(at, item);
    proof {
        let after = items@;
        assert(after =~= before.insert(at as int, item));
        assert forall|i: int, j: int| 0 <= i < j < after.len() implies !R::ranks_before(
            after[j],
            after[i],
        ) by {
            if j < at {
                assert(after[i] == before[i] && after[j] == before[j]);
            } else if j == at {
                assert(after[i] == before[i]);
            } else if i < at {
                assert(after[i] == before[i] && after[j] == before[j - 1]);
            } else if i == at {
                assert(after[j] == before[j - 1]);
            } else {
                assert(after[i] == before[i - 1] && after[j] == before[j - 1]);
            }
        }
    }
    at
}

/// What was in order, with one more value that comes after those that are on a par with it.
proof fn lemma_order_kept<T, R: Ranking<T>>(
    items: Seq<T>,
    sorted: Seq<T>,
    places: Seq<int>,
    item: T,
    at: int,
)
    requires
        keeps_order::<T, R>(items, sorted, places),
        0 <= at <= sorted.len(),
        forall|i: int| at <= i < sorted.len() ==> R::ranks_before(item, #[trigger] sorted[i]),
    ensures
        keeps_order::<T, R>(
            items.push(item),
            sorted.insert(at, item),
            places.insert(at, items.len() as int),
        ),
{
    let n = items.len() as int;
    let all = items.push(item);
    let after = sorted.insert(at, item);
    let now = places.insert(at, n);
    assert forall|i: int| 0 <= i < places.len() implies 0 <= #[trigger] places[i] < n by {
        assert(places.contains(places[i]));
    }
    assert forall|i: int, j: int| 0 <= i < now.len() && 0 <= j < now.len() && i != j implies now[i]
        != now[j] by {
        let a = if i < at {
            i
        } else {
            i - 1
        };
        let b = if j < at {
            j
        } else {
            j - 1
        };
        if i != at && j != at {
            assert(places[a] != places[b]);
        }
    }
    assert forall|place: int| 0 <= place < n + 1 <==> #[trigger] now.contains(place) by {
        if 0 <= place < n {
            assert(places.contains(place));
            let k = choose|k: int| 0 <= k < places.len() && places[k] == place;
            if k < at {
                assert(now[k] == place);
            } else {
                assert(now[k + 1] == place);
            }
        } else if place == n {
            assert(now[at] == n);
        }
        if now.contains(place) {
            let k = choose|k: int| 0 <= k < now.len() && now[k] == place;
            if k < at {
                assert(places[k] == place);
            } else if k > at {
                assert(places[k - 1] == place);
            }
        }
    }
    assert forall|i: int| 0 <= i < after.len() implies #[trigger] after[i] == all[now[i]] by {
        if i < at {
            assert(sorted[i] == items[places[i]]);
        } else if i > at {
            assert(sorted[i - 1] == items[places[i - 1]]);
        }
    }
    assert forall|i: int, j: int|
        0 <= i < j < after.len() && !R::ranks_before(after[i], after[j]) implies now[i]
        < now[j] by {
        if i == at {
            assert(R::ranks_before(item, sorted[j - 1]));
        } else if j != at {
            let a = if i < at {
                i
            } else {
                i - 1
            };
            let b = if j < at {
                j
            } else {
                j - 1
            };
            assert(!R::ranks_before(sorted[a], sorted[b]));
        }
    }
}

/// Puts values in order. Values that are on a par keep the order that they had.
pub fn sort_ranked<T, R: Ranking<T>>(items: Vec<T>) -> (sorted: Vec<T>)
    ensures
        is_sorted_from::<T, R>(items@, sorted@),
        sorted@.to_multiset() == items@.to_multiset(),
        sorted@.len() == items@.len(),
{
    let mut sorted: Vec<T> = Vec::new();
    let mut rest = items;
    let ghost all = items@;
    let ghost mut done: int = 0;
    let ghost mut places: Seq<int> = Seq::empty();
    proof {
        assert(all.skip(0) =~= all);
        assert(sorted@ =~= all.take(0));
        assert(keeps_order::<T, R>(all.take(0), sorted@, places));
    }
    while rest.len() > 0
        invariant
            0 <= done <= all.len(),
            rest@ == all.skip(done),
            is_ranked::<T, R>(sorted@),
            keeps_order::<T, R>(all.take(done), sorted@, places),
            sorted@.to_multiset() == all.take(done).to_multiset(),
        decreases rest@.len(),
    {
        let ghost before = sorted@;
        let item = rest.remove(0);
        let at = insert_ranked::<T, R>(&mut sorted, item);
        proof {
            assert(item == all[done]);
            assert(rest@ =~= all.skip(done + 1));
            assert(all.take(done + 1) =~= all.take(done).push(item));
            lemma_order_kept::<T, R>(all.take(done), before, places, item, at as int);
            vstd::seq_lib::to_multiset_insert(before, at as int, item);
            vstd::seq_lib::to_multiset_build(all.take(done), item);
            places = places.insert(at as int, done);
            done = done + 1;
        }
    }
    proof {
        assert(all.take(done) =~= all);
    }
    sorted
}

/// Texts are ordered as in a dictionary, by the numbers of their characters: the first character in
/// which they differ decides, and a text comes before those that go on after it.
pub proof fn texts_are_ordered_as_in_a_dictionary(
    common: Seq<char>,
    a: char,
    left: Seq<char>,
    b: char,
    right: Seq<char>,
)
    ensures
        a < b ==> text_before(common + seq![a] + left, common + seq![b] + right),
        a > b ==> !text_before(common + seq![a] + left, common + seq![b] + right),
        text_before(common, common + seq![b] + right),
        !text_before(common + seq![a] + left, common),
    decreases common.len(),
{
    let first = common + seq![a] + left;
    let second = common + seq![b] + right;
    if common.len() > 0 {
        let rest = common.drop_first();
        texts_are_ordered_as_in_a_dictionary(rest, a, left, b, right);
        assert(first.drop_first() =~= rest + seq![a] + left);
        assert(second.drop_first() =~= rest + seq![b] + right);
        assert(first[0] == common[0]);
        assert(second[0] == common[0]);
    }
}

} // verus!
