//! Ordering a list from the highest rank to the lowest.
//!
//! A rank is a pair of numbers, compared by the first number and then by the second. Items
//! of equal rank keep the order in which they were given.

use vstd::prelude::*;

verus! {

/// The rank of an item.
pub type Rank = (u64, u64);

/// Whether rank `a` is above rank `b`.
pub open spec fn rank_above(a: Rank, b: Rank) -> bool {
    a.0 > b.0 || (a.0 == b.0 && a.1 > b.1)
}

/// An item that has a rank, which is read from its view.
pub trait Ranked: DeepView {
    /// The rank of an item with the view `v`.
    spec fn rank_of(v: Self::V) -> Rank;

    /// The rank of this item.
    fn rank(&self) -> (r: Rank)
        ensures
            r == Self::rank_of(self.deep_view()),
    ;
}

/// The function that gives the rank of a view of `T`.
pub open spec fn rank_fn<T: Ranked>() -> spec_fn(T::V) -> Rank {
    |v: T::V| T::rank_of(v)
}

/// Whether no item of `s` stands before an item of higher rank.
pub open spec fn is_descending<V>(s: Seq<V>, rank: spec_fn(V) -> Rank) -> bool {
    forall|i: int, j: int| 0 <= i < j < s.len() ==> !rank_above(rank(s[j]), rank(s[i]))
}

/// How many items at the start of `s` have a rank above `r` or equal to it, counting from
/// `from`: where an item of rank `r` is put into a descending list so that it stands after
/// the items of its own rank.
pub open spec fn insertion_point<V>(s: Seq<V>, rank: spec_fn(V) -> Rank, r: Rank, from: int) -> int
    decreases s.len() - from,
{
    if 0 <= from < s.len() && !rank_above(r, rank(s[from])) {
        insertion_point(s, rank, r, from + 1)
    } else {
        from
    }
}

/// `s` from the highest rank to the lowest. Items of equal rank stand in the order in
/// which they stand in `s`.
pub open spec fn sorted_descending<V>(s: Seq<V>, rank: spec_fn(V) -> Rank) -> Seq<V>
    decreases s.len(),
{
    if s.len() == 0 {
        s
    } else {
        let before = sorted_descending(s.drop_last(), rank);
        before.insert(insertion_point(before, rank, rank(s.last()), 0), s.last())
    }
}

/// The insertion point lies within the list; the items before it are not below `r`, and
/// the item at it, if there is one, is below `r`.
pub proof fn lemma_insertion_point<V>(s: Seq<V>, rank: spec_fn(V) -> Rank, r: Rank, from: int)
    requires
        0 <= from <= s.len(),
    ensures
        from <= insertion_point(s, rank, r, from) <= s.len(),
        forall|i: int|
            from <= i < insertion_point(s, rank, r, from) ==> !rank_above(r, rank(#[trigger] s[i])),
        insertion_point(s, rank, r, from) < s.len() ==> rank_above(
            r,
            rank(s[insertion_point(s, rank, r, from)]),
        ),
    decreases s.len() - from,
{
    if from < s.len() && !rank_above(r, rank(s[from])) {
        lemma_insertion_point(s, rank, r, from + 1);
    }
}

/// The sorted list is in descending order and holds the items of the given list, each as
/// often as the given list holds it.
pub proof fn lemma_sorted_descending<V>(s: Seq<V>, rank: spec_fn(V) -> Rank)
    ensures
        is_descending(sorted_descending(s, rank), rank),
        sorted_descending(s, rank).len() == s.len(),
        sorted_descending(s, rank).to_multiset() == s.to_multiset(),
    decreases s.len(),
{
    broadcast use vstd::seq_lib::group_to_multiset_ensures;

    if s.len() > 0 {
        let before = sorted_descending(s.drop_last(), rank);
        let x = s.last();
        let at = insertion_point(before, rank, rank(x), 0);
        lemma_sorted_descending(s.drop_last(), rank);
        lemma_insertion_point(before, rank, rank(x), 0);
        let after = before.insert(at, x);
        assert forall|i: int, j: int| 0 <= i < j < after.len() implies !rank_above(
            rank(after[j]),
            rank(after[i]),
        ) by {
            if j < at {
                assert(after[i] == before[i] && after[j] == before[j]);
            } else if j == at {
                assert(after[i] == before[i]);
            } else if i < at {
                assert(after[i] == before[i] && after[j] == before[j - 1]);
                if at < before.len() {
                    assert(!rank_above(rank(before[j - 1]), rank(before[at])) || j - 1 == at);
                }
            } else if i == at {
                assert(after[j] == before[j - 1]);
                if j - 1 > at {
                    assert(!rank_above(rank(before[j - 1]), rank(before[at])));
                }
            } else {
                assert(after[i] == before[i - 1] && after[j] == before[j - 1]);
            }
        }
        assert(after.remove(at) =~= before);
        assert(after[at] == x);
        vstd::seq_lib::to_multiset_remove(after, at);
        assert(after.to_multiset().count(x) > 0);
        assert(after.to_multiset() =~= before.to_multiset().insert(x));
        assert(s =~= s.drop_last().push(x));
        assert(s.to_multiset() =~= s.drop_last().to_multiset().insert(x));
    }
}

/// The first item of the sorted list is an item of the given list that none is above.
pub proof fn lemma_sorted_descending_first<V>(s: Seq<V>, rank: spec_fn(V) -> Rank)
    requires
        s.len() > 0,
    ensures
        s.contains(sorted_descending(s, rank)[0]),
        forall|i: int|
            0 <= i < s.len() ==> !rank_above(
                rank(#[trigger] s[i]),
                rank(sorted_descending(s, rank)[0]),
            ),
{
    broadcast use vstd::seq_lib::group_to_multiset_ensures;

    lemma_sorted_descending(s, rank);
    let sorted = sorted_descending(s, rank);
    assert(sorted.to_multiset().count(sorted[0]) > 0);
    assert forall|i: int| 0 <= i < s.len() implies !rank_above(
        rank(#[trigger] s[i]),
        rank(sorted[0]),
    ) by {
        assert(s.to_multiset().count(s[i]) > 0);
        assert(sorted.contains(s[i]));
        let j = choose|j: int| 0 <= j < sorted.len() && sorted[j] == s[i];
        if j > 0 {
            assert(!rank_above(rank(sorted[j]), rank(sorted[0])));
        }
    }
}

/// The views of the items of `v`.
pub open spec fn views_of<T: DeepView>(v: Seq<T>) -> Seq<T::V> {
    Seq::new(v.len(), |i: int| v[i].deep_view())
}

/// Orders the list from the highest rank to the lowest. Items of equal rank keep their
/// order.
pub fn sort_descending<T: Ranked>(v: &mut Vec<T>)
    ensures
        views_of(final(v)@) == sorted_descending(views_of(old(v)@), rank_fn::<T>()),
{
    let ghost rank = rank_fn::<T>();
    let ghost given = views_of(v@);
    let mut rest: Vec<T> = Vec::new();
    // Turn the list over, so that its items can be taken from the end in their order.
    move_reversed(v, &mut rest);
    proof {
        assert(views_of(v@) =~= Seq::<T::V>::empty());
        assert(sorted_descending(given.take(0), rank) =~= views_of(v@));
        assert(views_of(rest@) =~= given.reverse());
    }
    let ghost mut done: int = 0;
    while rest.len() > 0
        invariant
            rank == rank_fn::<T>(),
            0 <= done <= given.len(),
            rest@.len() == given.len() - done,
            views_of(rest@) == given.skip(done).reverse(),
            views_of(v@) == sorted_descending(given.take(done), rank),
        decreases rest.len(),
    {
        let ghost before_rest = views_of(rest@);
        let x = rest.pop().unwrap();
        proof {
            lemma_reverse_without_last(given, done);
            assert(views_of(rest@) =~= before_rest.drop_last());
        }
        let at = find_insertion_point(v, &x);
        let ghost before = views_of(v@);
        v.insert(at, x);
        proof {
            assert(x.deep_view() == given[done]);
            assert(given.take(done + 1).drop_last() =~= given.take(done));
            assert(given.take(done + 1).last() == given[done]);
            assert(views_of(v@) =~= before.insert(at as int, x.deep_view()));
            done = done + 1;
        }
    }
    proof {
        assert(given.take(done) =~= given);
    }
}

/// Moves the items of `from` to the end of `to`, the last one first, and leaves `from`
/// empty.
pub(crate) fn move_reversed<T: DeepView>(from: &mut Vec<T>, to: &mut Vec<T>)
    ensures
        final(from)@.len() == 0,
        views_of(final(to)@) == views_of(old(to)@) + views_of(old(from)@).reverse(),
{
    let ghost given = views_of(from@);
    let ghost start = views_of(to@);
    while from.len() > 0
        invariant
            from@.len() <= given.len(),
            views_of(from@) == given.take(from@.len() as int),
            views_of(to@) == start + given.skip(from@.len() as int).reverse(),
        decreases from.len(),
    {
        let ghost n = from@.len() as int;
        let ghost before = views_of(to@);
        let x = from.pop().unwrap();
        to.push(x);
        proof {
            assert(x.deep_view() == given.take(n)[n - 1]);
            assert(views_of(from@) =~= given.take(n - 1));
            assert(views_of(to@) =~= before.push(x.deep_view()));
            assert(given.skip(n - 1) =~= seq![given[n - 1]] + given.skip(n));
            assert(given.skip(n - 1).reverse() =~= given.skip(n).reverse().push(given[n - 1]));
        }
    }
    proof {
        assert(given.skip(0) =~= given);
    }
}

/// A list that is turned over from position `from` on ends in the item at `from`, and
/// without it is the list turned over from the next position on.
pub proof fn lemma_reverse_without_last<V>(s: Seq<V>, from: int)
    requires
        0 <= from < s.len(),
    ensures
        s.skip(from).reverse().last() == s[from],
        s.skip(from).reverse().drop_last() == s.skip(from + 1).reverse(),
{
    let turned = s.skip(from).reverse();
    assert(turned.len() == s.len() - from);
    assert(turned.drop_last() =~= s.skip(from + 1).reverse());
}

/// Finds where `x` goes in the descending list `v`.
fn find_insertion_point<T: Ranked>(v: &Vec<T>, x: &T) -> (at: usize)
    ensures
        at == insertion_point(views_of(v@), rank_fn::<T>(), T::rank_of(x.deep_view()), 0),
        at <= v@.len(),
{
    let ghost rank = rank_fn::<T>();
    let r = x.rank();
    let mut at: usize = 0;
    while at < v.len() && !is_above(r, v[at].rank())
        invariant
            at <= v@.len(),
            r == T::rank_of(x.deep_view()),
            rank == rank_fn::<T>(),
            insertion_point(views_of(v@), rank, r, 0) == insertion_point(
                views_of(v@),
                rank,
                r,
                at as int,
            ),
        decreases v@.len() - at,
    {
        at += 1;
    }
    at
}

/// Whether rank `a` is above rank `b`.
pub(crate) fn is_above(a: Rank, b: Rank) -> (r: bool)
    ensures
        r == rank_above(a, b),
{
    a.0 > b.0 || (a.0 == b.0 && a.1 > b.1)
}

} // verus!
