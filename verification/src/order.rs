//! Searching, stable sorting and sorted sets.
use vstd::prelude::*;

use crate::text;
use crate::text::{same_text, text_before};

verus! {

/// A type whose values are put in order by their content.
pub trait Ranked: View + Sized {
    /// Whether `a` comes before `b`.
    spec fn before(a: Self::V, b: Self::V) -> bool;

    /// Whether this value comes before `other`.
    fn is_before(&self, other: &Self) -> (r: bool)
        ensures
            r == Self::before(self@, other@),
    ;

    /// Of two values at most one comes before the other.
    proof fn asymmetric(a: Self::V, b: Self::V)
        requires
            Self::before(a, b),
        ensures
            !Self::before(b, a),
    ;

    /// If `a` does not come after `b` and `b` does not come after `c`, then `a`
    /// does not come after `c`.
    proof fn transitive(a: Self::V, b: Self::V, c: Self::V)
        requires
            !Self::before(b, a),
            !Self::before(c, b),
        ensures
            !Self::before(c, a),
    ;
}

/// The contents of a sequence of values.
pub open spec fn views<T: View>(v: Seq<T>) -> Seq<T::V> {
    v.map_values(|x: T| x@)
}

/// `s` with `x` put in behind everything that does not come after it.
pub open spec fn ranked_insert<T: Ranked>(s: Seq<T::V>, x: T::V) -> Seq<T::V>
    decreases s.len(),
{
    if s.len() == 0 || !T::before(x, s.last()) {
        s.push(x)
    } else {
        ranked_insert::<T>(s.drop_last(), x).push(s.last())
    }
}

/// The elements of `s` in order; elements of equal rank keep their order.
pub open spec fn ranked_sort<T: Ranked>(s: Seq<T::V>) -> Seq<T::V>
    decreases s.len(),
{
    if s.len() == 0 {
        Seq::empty()
    } else {
        ranked_insert::<T>(ranked_sort::<T>(s.drop_last()), s.last())
    }
}

/// Whether no element comes before one that precedes it.
pub open spec fn in_order<T: Ranked>(s: Seq<T::V>) -> bool {
    forall|i: int, j: int| 0 <= i < j < s.len() ==> !T::before(#[trigger] s[j], #[trigger] s[i])
}

/// Puts `x` in behind everything that does not come after it.
pub fn insert_ranked<T: Ranked>(v: &mut Vec<T>, x: T)
    ensures
        views(final(v)@) == ranked_insert::<T>(views(old(v)@), x@),
{
    let ghost s = views(v@);
    let mut at: usize = v.len();
    assert(s.take(at as int) =~= s);
    assert(s.skip(at as int) =~= Seq::empty());
    assert(ranked_insert::<T>(s.take(at as int), x@) + s.skip(at as int) =~= ranked_insert::<T>(
        s,
        x@,
    ));
    while at > 0 && x.is_before(&v[at - 1])
        invariant
            *v == *old(v),
            s == views(v@),
            at <= v@.len(),
            ranked_insert::<T>(s.take(at as int), x@) + s.skip(at as int) == ranked_insert::<T>(
                s,
                x@,
            ),
        decreases at,
    {
        let ghost head = s.take(at as int);
        assert(head.last() == v@[at - 1]@);
        assert(head.drop_last() =~= s.take(at - 1));
        assert(s.skip(at - 1) =~= seq![head.last()] + s.skip(at as int));
        assert(ranked_insert::<T>(s.take(at - 1), x@) + s.skip(at - 1) =~= ranked_insert::<T>(
            s.take(at as int),
            x@,
        ) + s.skip(at as int));
        at = at - 1;
    }
    proof {
        if at > 0 {
            assert(s.take(at as int).last() == v@[at - 1]@);
        }
        assert(ranked_insert::<T>(s.take(at as int), x@) == s.take(at as int).push(x@));
    }
    v.insert(at, x);
    assert(views(v@) =~= s.take(at as int).push(x@) + s.skip(at as int));
}

/// The elements of `v` in order; elements of equal rank keep their order.
pub fn sort_ranked<T: Ranked>(v: Vec<T>) -> (r: Vec<T>)
    ensures
        views(r@) == ranked_sort::<T>(views(v@)),
{
    let ghost all = views(v@);
    let mut rest = v;
    let mut taken: Vec<T> = Vec::new();
    // Turned round, so that elements can be moved out from the end.
    while rest.len() > 0
        invariant
            all == views(rest@) + views(taken@).reverse(),
        decreases rest@.len(),
    {
        let ghost before_rest = rest@;
        let ghost before_taken = taken@;
        match rest.pop() {
            Some(x) => {
                taken.push(x);
                assert(views(before_rest) =~= views(rest@).push(x@));
                assert(views(taken@) =~= views(before_taken).push(x@));
                assert(views(taken@).reverse() =~= seq![x@] + views(before_taken).reverse());
                assert(views(rest@) + views(taken@).reverse() =~= views(before_rest) + views(
                    before_taken,
                ).reverse());
            },
            None => {},
        }
    }
    assert(views(rest@) =~= Seq::empty());
    assert(all =~= views(taken@).reverse());
    let mut out: Vec<T> = Vec::new();
    let ghost mut done: int = 0;
    assert(all.take(0) =~= Seq::empty());
    assert(views(out@) =~= Seq::empty());
    while taken.len() > 0
        invariant
            0 <= done,
            done + taken@.len() == all.len(),
            forall|i: int|
                0 <= i < taken@.len() ==> (#[trigger] taken@[i])@ == all[all.len() - 1 - i],
            views(out@) == ranked_sort::<T>(all.take(done)),
        decreases taken@.len(),
    {
        let ghost before_taken = taken@;
        match taken.pop() {
            Some(x) => {
                assert(x@ == before_taken[before_taken.len() - 1]@);
                assert(x@ == all[done]);
                insert_ranked(&mut out, x);
                assert(all.take(done + 1).drop_last() =~= all.take(done));
                assert(all.take(done + 1).last() == all[done]);
                assert forall|i: int| 0 <= i < taken@.len() implies (#[trigger] taken@[i])@ == all[
                all.len() - 1 - i] by {
                    assert(taken@[i] == before_taken[i]);
                }
                proof {
                    done = done + 1;
                }
            },
            None => {},
        }
    }
    assert(all.take(done) =~= all);
    out
}

/// Whether an element of the same rank as `x` is there.
pub open spec fn ranked_present<T: Ranked>(s: Seq<T::V>, x: T::V) -> bool {
    exists|i: int| 0 <= i < s.len() && !T::before(#[trigger] s[i], x) && !T::before(x, s[i])
}

/// `s` with `x` put in, unless an element of the same rank is there.
pub open spec fn ranked_set_insert<T: Ranked>(s: Seq<T::V>, x: T::V) -> Seq<T::V> {
    if ranked_present::<T>(s, x) {
        s
    } else {
        ranked_insert::<T>(s, x)
    }
}

/// Puts `x` in, unless an element of the same rank is there.
pub fn insert_ranked_set<T: Ranked>(v: &mut Vec<T>, x: T)
    ensures
        views(final(v)@) == ranked_set_insert::<T>(views(old(v)@), x@),
{
    let ghost s = views(v@);
    let mut i: usize = 0;
    while i < v.len()
        invariant
            *v == *old(v),
            s == views(v@),
            i <= v@.len(),
            forall|j: int|
                0 <= j < i ==> T::before(#[trigger] s[j], x@) || T::before(x@, s[j]),
        decreases v@.len() - i,
    {
        assert(s[i as int] == v@[i as int]@);
        if !v[i].is_before(&x) && !x.is_before(&v[i]) {
            return;
        }
        i = i + 1;
    }
    insert_ranked(v, x);
}

/// Putting an element into an ordered sequence keeps it ordered, and adds that
/// element and nothing else.
pub proof fn insert_keeps_order<T: Ranked>(s: Seq<T::V>, x: T::V)
    requires
        in_order::<T>(s),
    ensures
        in_order::<T>(ranked_insert::<T>(s, x)),
        ranked_insert::<T>(s, x).to_multiset() == s.to_multiset().insert(x),
        ranked_insert::<T>(s, x).len() == s.len() + 1,
        forall|i: int|
            0 <= i < ranked_insert::<T>(s, x).len() ==> (#[trigger] ranked_insert::<T>(s, x)[i] == x
                || s.contains(ranked_insert::<T>(s, x)[i])),
    decreases s.len(),
{
    broadcast use vstd::seq_lib::group_to_multiset_ensures;

    let r = ranked_insert::<T>(s, x);
    if s.len() == 0 || !T::before(x, s.last()) {
        assert forall|i: int, j: int| 0 <= i < j < r.len() implies !T::before(
            #[trigger] r[j],
            #[trigger] r[i],
        ) by {
            if j == s.len() {
                if i < s.len() - 1 {
                    assert(!T::before(s[s.len() - 1], s[i]));
                    T::transitive(s[i], s.last(), x);
                }
            } else {
                assert(!T::before(s[j], s[i]));
            }
        }
        assert forall|i: int| 0 <= i < r.len() implies (#[trigger] r[i] == x || s.contains(
            r[i],
        )) by {
            if i < s.len() {
                assert(s[i] == r[i]);
            }
        }
    } else {
        let head = s.drop_last();
        let last = s.last();
        assert forall|i: int, j: int| 0 <= i < j < head.len() implies !T::before(
            #[trigger] head[j],
            #[trigger] head[i],
        ) by {
            assert(!T::before(s[j], s[i]));
        }
        insert_keeps_order::<T>(head, x);
        let front = ranked_insert::<T>(head, x);
        assert(r == front.push(last));
        assert forall|i: int, j: int| 0 <= i < j < r.len() implies !T::before(
            #[trigger] r[j],
            #[trigger] r[i],
        ) by {
            if j == front.len() {
                assert(front[i] == x || head.contains(front[i]));
                if front[i] == x {
                    T::asymmetric(x, last);
                } else {
                    let k = choose|k: int| 0 <= k < head.len() && head[k] == front[i];
                    assert(!T::before(s[s.len() - 1], s[k]));
                }
            } else {
                assert(!T::before(front[j], front[i]));
            }
        }
        assert(s =~= head.push(last));
        assert(r.to_multiset() =~= s.to_multiset().insert(x));
        assert forall|i: int| 0 <= i < r.len() implies (#[trigger] r[i] == x || s.contains(
            r[i],
        )) by {
            if i < front.len() {
                assert(front[i] == x || head.contains(front[i]));
                if front[i] != x {
                    let k = choose|k: int| 0 <= k < head.len() && head[k] == front[i];
                    assert(s[k] == r[i]);
                }
            } else {
                assert(s[s.len() - 1] == r[i]);
            }
        }
    }
}

/// Whether every element comes before those that follow it.
pub open spec fn strictly_in_order<T: Ranked>(s: Seq<T::V>) -> bool {
    forall|i: int, j: int| 0 <= i < j < s.len() ==> T::before(#[trigger] s[i], #[trigger] s[j])
}

/// A sequence that is strictly in order is in order.
pub proof fn strict_order_is_order<T: Ranked>(s: Seq<T::V>)
    requires
        strictly_in_order::<T>(s),
    ensures
        in_order::<T>(s),
{
    assert forall|i: int, j: int| 0 <= i < j < s.len() implies !T::before(
        #[trigger] s[j],
        #[trigger] s[i],
    ) by {
        assert(T::before(s[i], s[j]));
        T::asymmetric(s[i], s[j]);
    }
}

/// Putting in an element of a rank that is not there keeps the order strict.
pub proof fn insert_keeps_strict_order<T: Ranked>(s: Seq<T::V>, x: T::V)
    requires
        strictly_in_order::<T>(s),
        !ranked_present::<T>(s, x),
    ensures
        strictly_in_order::<T>(ranked_insert::<T>(s, x)),
    decreases s.len(),
{
    let r = ranked_insert::<T>(s, x);
    if s.len() == 0 || !T::before(x, s.last()) {
        assert forall|i: int, j: int| 0 <= i < j < r.len() implies T::before(
            #[trigger] r[i],
            #[trigger] r[j],
        ) by {
            if j == s.len() {
                let last = s[s.len() - 1];
                assert(T::before(last, x) || T::before(x, last));
                assert(T::before(s[i], x) || T::before(x, s[i]));
                if i < s.len() - 1 && T::before(x, s[i]) {
                    assert(T::before(s[i], last));
                    T::asymmetric(x, s[i]);
                    T::asymmetric(s[i], last);
                    T::transitive(x, s[i], last);
                }
            } else {
                assert(T::before(s[i], s[j]));
            }
        }
    } else {
        let head = s.drop_last();
        let last = s.last();
        assert forall|i: int, j: int| 0 <= i < j < head.len() implies T::before(
            #[trigger] head[i],
            #[trigger] head[j],
        ) by {
            assert(T::before(s[i], s[j]));
        }
        assert forall|i: int| 0 <= i < head.len() implies T::before(#[trigger] head[i], x)
            || T::before(x, head[i]) by {
            assert(T::before(s[i], x) || T::before(x, s[i]));
        }
        insert_keeps_strict_order::<T>(head, x);
        strict_order_is_order::<T>(head);
        insert_keeps_order::<T>(head, x);
        let front = ranked_insert::<T>(head, x);
        assert forall|i: int, j: int| 0 <= i < j < r.len() implies T::before(
            #[trigger] r[i],
            #[trigger] r[j],
        ) by {
            if j == front.len() {
                assert(front[i] == x || head.contains(front[i]));
                if front[i] != x {
                    let k = choose|k: int| 0 <= k < head.len() && head[k] == front[i];
                    assert(T::before(s[k], s[s.len() - 1]));
                }
            } else {
                assert(T::before(front[i], front[j]));
            }
        }
    }
}

/// Sorting puts the elements in order and neither adds nor loses any.
pub proof fn sorting_orders_and_keeps<T: Ranked>(s: Seq<T::V>)
    ensures
        in_order::<T>(ranked_sort::<T>(s)),
        ranked_sort::<T>(s).to_multiset() == s.to_multiset(),
        ranked_sort::<T>(s).len() == s.len(),
    decreases s.len(),
{
    broadcast use vstd::seq_lib::group_to_multiset_ensures;

    if s.len() > 0 {
        sorting_orders_and_keeps::<T>(s.drop_last());
        insert_keeps_order::<T>(ranked_sort::<T>(s.drop_last()), s.last());
        assert(s =~= s.drop_last().push(s.last()));
    }
}

// ---------------------------------------------------------------------------
// Searching
// ---------------------------------------------------------------------------

/// The position of the first element with a property.
pub open spec fn first_where<T>(s: Seq<T>, p: spec_fn(T) -> bool) -> Option<int>
    decreases s.len(),
{
    if s.len() == 0 {
        None
    } else if p(s[0]) {
        Some(0)
    } else {
        match first_where(s.drop_first(), p) {
            Some(i) => Some(i + 1),
            None => None,
        }
    }
}

/// [`first_where`] is the position before which no element has the property.
pub proof fn first_where_meaning<T>(s: Seq<T>, p: spec_fn(T) -> bool)
    ensures
        match first_where(s, p) {
            Some(i) => 0 <= i < s.len() && p(s[i]) && forall|j: int| 0 <= j < i ==> !p(s[j]),
            None => forall|j: int| 0 <= j < s.len() ==> !p(s[j]),
        },
    decreases s.len(),
{
    if s.len() > 0 && !p(s[0]) {
        first_where_meaning(s.drop_first(), p);
        assert forall|j: int| 1 <= j < s.len() implies s[j] == s.drop_first()[j - 1] by {}
    }
}

// ---------------------------------------------------------------------------
// Sorted sets of texts
// ---------------------------------------------------------------------------

/// Whether texts stand in strictly ascending order.
pub open spec fn ascending(s: Seq<Seq<char>>) -> bool {
    forall|i: int, j: int| 0 <= i < j < s.len() ==> text::text_lt(#[trigger] s[i], #[trigger] s[j])
}

/// Adds a text to a sorted set.
pub fn insert_text(v: &mut Vec<String>, x: String)
    requires
        ascending(text::texts(old(v)@)),
    ensures
        ascending(text::texts(final(v)@)),
        forall|s: Seq<char>|
            text::texts(final(v)@).contains(s) <==> text::texts(old(v)@).contains(s) || s == x@,
{
    let ghost before = text::texts(v@);
    let mut at: usize = 0;
    while at < v.len() && text_before(v[at].as_str(), x.as_str())
        invariant
            *v == *old(v),
            before == text::texts(v@),
            at <= v@.len(),
            forall|j: int| 0 <= j < at ==> text::text_lt(#[trigger] before[j], x@),
        decreases v@.len() - at,
    {
        at = at + 1;
    }
    if at < v.len() && same_text(v[at].as_str(), x.as_str()) {
        assert(before[at as int] == x@);
        return;
    }
    proof {
        assert forall|j: int| at <= j < before.len() implies text::text_lt(
            x@,
            #[trigger] before[j],
        ) by {
            text::text_lt_total(before[at as int], x@);
            if j > at {
                text::text_lt_transitive(x@, before[at as int], before[j]);
            }
        }
    }
    v.insert(at, x);
    let ghost after = text::texts(v@);
    assert(after =~= before.insert(at as int, x@));
    assert forall|i: int, j: int| 0 <= i < j < after.len() implies text::text_lt(
        #[trigger] after[i],
        #[trigger] after[j],
    ) by {
        let a = if i < at {
            i
        } else {
            i - 1
        };
        let b = if j < at {
            j
        } else {
            j - 1
        };
        if i != at && j != at {
            assert(text::text_lt(before[a], before[b]));
        }
    }
    assert forall|s: Seq<char>| after.contains(s) <==> before.contains(s) || s == x@ by {
        if before.contains(s) {
            let k = choose|k: int| 0 <= k < before.len() && before[k] == s;
            assert(after[if k < at {
                k
            } else {
                k + 1
            }] == s);
        }
        if s == x@ {
            assert(after[at as int] == s);
        }
        if after.contains(s) {
            let k = choose|k: int| 0 <= k < after.len() && after[k] == s;
            if k < at {
                assert(before[k] == s);
            } else if k > at {
                assert(before[k - 1] == s);
            }
        }
    }
}

} // verus!
