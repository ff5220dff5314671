//! Facts about sequences that several modules use.
use vstd::prelude::*;

verus! {

/// The views of the items of a sequence.
pub open spec fn views<T: DeepView>(s: Seq<T>) -> Seq<T::V> {
    Seq::new(s.len(), |i: int| s[i].deep_view())
}

/// The view of a vector is made of the views of its items.
pub broadcast proof fn vec_views<T: DeepView>(v: Vec<T>)
    ensures
        #[trigger] v.deep_view() == views(v@),
{
    assert(v.deep_view() =~= views(v@));
}

/// The view of a slice is made of the views of its items.
pub broadcast proof fn slice_views<T: DeepView>(s: &[T])
    ensures
        #[trigger] s.deep_view() == views(s@),
{
    assert(s.deep_view() =~= views(s@));
}

/// The views follow what is added at the end.
pub broadcast proof fn views_push<T: DeepView>(s: Seq<T>, x: T)
    ensures
        #[trigger] views(s.push(x)) == views(s).push(x.deep_view()),
{
    assert(views(s.push(x)) =~= views(s).push(x.deep_view()));
}

/// The views of a part are that part of the views.
pub broadcast proof fn views_subrange<T: DeepView>(s: Seq<T>, i: int, j: int)
    requires
        0 <= i <= j <= s.len(),
    ensures
        #[trigger] views(s.subrange(i, j)) == views(s).subrange(i, j),
{
    assert(views(s.subrange(i, j)) =~= views(s).subrange(i, j));
}

/// The views of an updated sequence.
pub broadcast proof fn views_update<T: DeepView>(s: Seq<T>, i: int, x: T)
    requires
        0 <= i < s.len(),
    ensures
        #[trigger] views(s.update(i, x)) == views(s).update(i, x.deep_view()),
{
    assert(views(s.update(i, x)) =~= views(s).update(i, x.deep_view()));
}

/// There are as many views as items.
pub broadcast proof fn views_len<T: DeepView>(s: Seq<T>)
    ensures
        #[trigger] views(s).len() == s.len(),
{
}

/// The views of no items.
pub broadcast proof fn views_empty<T: DeepView>()
    ensures
        #[trigger] views(Seq::<T>::empty()) == Seq::<T::V>::empty(),
{
    assert(views(Seq::<T>::empty()) =~= Seq::<T::V>::empty());
}

/// How views relate to the sequences that they are of.
pub broadcast group group_views {
    vec_views,
    slice_views,
    views_push,
    views_subrange,
    views_update,
    views_len,
    views_empty,
}

/// The items without those that came before.
pub open spec fn distinct<A>(s: Seq<A>) -> Seq<A>
    decreases s.len(),
{
    if s.len() == 0 {
        Seq::empty()
    } else {
        let d = distinct(s.drop_last());
        if d.contains(s.last()) {
            d
        } else {
            d.push(s.last())
        }
    }
}

/// Leaving out repetitions keeps every item, and keeps it once.
pub proof fn distinct_keeps<A>(s: Seq<A>)
    ensures
        distinct(s).no_duplicates(),
        forall|x: A| #[trigger] distinct(s).contains(x) == s.contains(x),
        distinct(s).len() <= s.len(),
    decreases s.len(),
{
    if s.len() > 0 {
        let t = s.drop_last();
        distinct_keeps(t);
        let d = distinct(t);
        assert forall|x: A| #[trigger] distinct(s).contains(x) == s.contains(x) by {
            assert(d.contains(x) == t.contains(x));
            if s.contains(x) {
                let i = choose|i: int| 0 <= i < s.len() && s[i] == x;
                if i < s.len() - 1 {
                    assert(t[i] == x);
                    let j = choose|j: int| 0 <= j < d.len() && d[j] == x;
                    assert(distinct(s)[j] == x);
                } else if !d.contains(s.last()) {
                    assert(distinct(s)[d.len() as int] == x);
                }
            }
            if distinct(s).contains(x) {
                let j = choose|j: int| 0 <= j < distinct(s).len() && distinct(s)[j] == x;
                if j < d.len() {
                    assert(d[j] == x);
                    let i = choose|i: int| 0 <= i < t.len() && t[i] == x;
                    assert(s[i] == x);
                } else {
                    assert(s[s.len() - 1] == x);
                }
            }
        }
    }
}

/// How often an item occurs.
pub open spec fn occurrences<A>(s: Seq<A>, x: A) -> nat
    decreases s.len(),
{
    if s.len() == 0 {
        0
    } else {
        occurrences(s.drop_last(), x) + if s.last() == x {
            1nat
        } else {
            0nat
        }
    }
}

/// An item occurs no more often than there are items, and not at all only where it is
/// not among them.
pub proof fn occurrences_bounds<A>(s: Seq<A>, x: A)
    ensures
        occurrences(s, x) <= s.len(),
        (occurrences(s, x) == 0) == !s.contains(x),
    decreases s.len(),
{
    if s.len() > 0 {
        let t = s.drop_last();
        occurrences_bounds(t, x);
        if s.contains(x) {
            let i = choose|i: int| 0 <= i < s.len() && s[i] == x;
            if i < s.len() - 1 {
                assert(t[i] == x);
            }
        }
        if t.contains(x) {
            let i = choose|i: int| 0 <= i < t.len() && t[i] == x;
            assert(s[i] == x);
        }
        if s.last() == x {
            assert(s[s.len() - 1] == x);
        }
    }
}

/// How many positions below `n` have the property.
pub open spec fn count_below(p: spec_fn(int) -> bool, n: int) -> int
    decreases n,
{
    if n <= 0 {
        0
    } else {
        count_below(p, n - 1) + if p(n - 1) {
            1int
        } else {
            0int
        }
    }
}

/// There are no more such positions than positions.
pub proof fn count_below_bounds(p: spec_fn(int) -> bool, n: int)
    ensures
        0 <= count_below(p, n) <= if n > 0 {
            n
        } else {
            0
        },
    decreases n,
{
    if n > 0 {
        count_below_bounds(p, n - 1);
    }
}

/// Two properties that agree below `n` are counted alike there.
pub proof fn count_below_same(p: spec_fn(int) -> bool, q: spec_fn(int) -> bool, n: int)
    requires
        forall|i: int| 0 <= i < n ==> #[trigger] p(i) == q(i),
    ensures
        count_below(p, n) == count_below(q, n),
    decreases n,
{
    if n > 0 {
        count_below_same(p, q, n - 1);
    }
}

} // verus!
