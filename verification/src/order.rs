//! Putting items in order by a number.
use vstd::prelude::*;

verus! {

/// Behind how many of the items, which are in order, one more belongs: behind those that
/// do not come after it.
pub open spec fn place<A>(s: Seq<A>, key: spec_fn(A) -> int, x: A) -> int
    decreases s.len(),
{
    if s.len() == 0 || key(s.last()) <= key(x) {
        s.len() as int
    } else {
        place(s.drop_last(), key, x)
    }
}

/// The items in the order of the number; those with the same number stay in the order in
/// which they were.
pub open spec fn ordered<A>(s: Seq<A>, key: spec_fn(A) -> int) -> Seq<A>
    decreases s.len(),
{
    if s.len() == 0 {
        Seq::empty()
    } else {
        let rest = ordered(s.drop_last(), key);
        rest.insert(place(rest, key, s.last()), s.last())
    }
}

/// The numbers of the items go up.
pub open spec fn goes_up<A>(s: Seq<A>, key: spec_fn(A) -> int) -> bool {
    forall|i: int, j: int| 0 <= i < j < s.len() ==> key(#[trigger] s[i]) <= key(#[trigger] s[j])
}

/// The place of an item lies within the items; what stands before does not come after it,
/// and what stands behind does.
pub proof fn place_bounds<A>(s: Seq<A>, key: spec_fn(A) -> int, x: A)
    requires
        goes_up(s, key),
    ensures
        0 <= place(s, key, x) <= s.len(),
        forall|i: int| 0 <= i < place(s, key, x) ==> key(#[trigger] s[i]) <= key(x),
        forall|i: int| place(s, key, x) <= i < s.len() ==> key(x) < key(#[trigger] s[i]),
    decreases s.len(),
{
    if s.len() > 0 && key(s.last()) > key(x) {
        let rest = s.drop_last();
        assert forall|i: int, j: int| 0 <= i < j < rest.len() implies key(#[trigger] rest[i])
            <= key(#[trigger] rest[j]) by {
            assert(key(s[i]) <= key(s[j]));
        }
        place_bounds(rest, key, x);
        assert forall|i: int| 0 <= i < place(s, key, x) implies key(#[trigger] s[i]) <= key(
            x,
        ) by {
            assert(rest[i] == s[i]);
        }
        assert forall|i: int| place(s, key, x) <= i < s.len() implies key(x) < key(
            #[trigger] s[i],
        ) by {
            if i < rest.len() {
                assert(rest[i] == s[i]);
            }
        }
    } else if s.len() > 0 {
        assert forall|i: int| 0 <= i < s.len() implies key(#[trigger] s[i]) <= key(x) by {
            if i < s.len() - 1 {
                assert(key(s[i]) <= key(s[s.len() - 1]));
            }
        }
    }
}

/// Items that are put in order go up, and are the items that there were.
pub proof fn order_holds<A>(s: Seq<A>, key: spec_fn(A) -> int)
    ensures
        goes_up(ordered(s, key), key),
        ordered(s, key).len() == s.len(),
        ordered(s, key).to_multiset() == s.to_multiset(),
    decreases s.len(),
{
    broadcast use vstd::seq_lib::group_to_multiset_ensures;

    if s.len() > 0 {
        let rest = ordered(s.drop_last(), key);
        let x = s.last();
        order_holds(s.drop_last(), key);
        place_bounds(rest, key, x);
        let k = place(rest, key, x);
        let all = rest.insert(k, x);
        assert forall|i: int, j: int| 0 <= i < j < all.len() implies key(#[trigger] all[i])
            <= key(#[trigger] all[j]) by {
            let a = if i < k { i } else { i - 1 };
            let b = if j < k { j } else { j - 1 };
            if i != k {
                assert(all[i] == rest[a]);
            }
            if j != k {
                assert(all[j] == rest[b]);
            }
            if i != k && j != k {
                assert(key(rest[a]) <= key(rest[b]));
            }
        }
        assert(s =~= s.drop_last().push(x));
        vstd::seq_lib::to_multiset_insert(rest, k, x);
    } else {
        assert(s =~= Seq::<A>::empty());
    }
}

/// Putting in order what is in order changes nothing.
pub proof fn order_is_kept<A>(s: Seq<A>, key: spec_fn(A) -> int)
    requires
        goes_up(s, key),
    ensures
        ordered(s, key) == s,
    decreases s.len(),
{
    if s.len() > 0 {
        let rest = s.drop_last();
        assert forall|i: int, j: int| 0 <= i < j < rest.len() implies key(#[trigger] rest[i])
            <= key(#[trigger] rest[j]) by {
            assert(key(s[i]) <= key(s[j]));
        }
        order_is_kept(rest, key);
        if rest.len() > 0 {
            assert(key(s[rest.len() - 1]) <= key(s[s.len() - 1]));
        }
        assert(rest.insert(rest.len() as int, s.last()) =~= s);
    }
}

} // verus!
