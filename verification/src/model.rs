//! Notions that the contracts of several modules share.

use vstd::prelude::*;

verus! {

/// A result whose two sides are taken by their views.
pub open spec fn outcome<T: DeepView, E: DeepView>(r: Result<T, E>) -> Result<T::V, E::V> {
    match r {
        Ok(v) => Ok(v.deep_view()),
        Err(e) => Err(e.deep_view()),
    }
}

/// The first element of `s` that satisfies `p`.
pub open spec fn first_where<T>(s: Seq<T>, p: spec_fn(T) -> bool) -> Option<T>
    decreases s.len(),
{
    if s.len() == 0 {
        None
    } else {
        match first_where(s.drop_last(), p) {
            Some(x) => Some(x),
            None => if p(s.last()) {
                Some(s.last())
            } else {
                None
            },
        }
    }
}

/// The last element of `s` that satisfies `p`.
pub open spec fn last_where<T>(s: Seq<T>, p: spec_fn(T) -> bool) -> Option<T>
    decreases s.len(),
{
    if s.len() == 0 {
        None
    } else if p(s.last()) {
        Some(s.last())
    } else {
        last_where(s.drop_last(), p)
    }
}

/// Whether some element of `s` satisfies `p`.
pub open spec fn any_where<T>(s: Seq<T>, p: spec_fn(T) -> bool) -> bool {
    exists|i: int| 0 <= i < s.len() && p(#[trigger] s[i])
}

/// What `first_where` finds is in the sequence and satisfies the predicate, and
/// nothing before it does.
pub proof fn first_where_finds<T>(s: Seq<T>, p: spec_fn(T) -> bool)
    ensures
        match first_where(s, p) {
            Some(x) => exists|i: int|
                0 <= i < s.len() && #[trigger] s[i] == x && p(x) && forall|j: int|
                    0 <= j < i ==> !p(#[trigger] s[j]),
            None => forall|j: int| 0 <= j < s.len() ==> !p(#[trigger] s[j]),
        },
        first_where(s, p) is Some == any_where(s, p),
    decreases s.len(),
{
    if s.len() > 0 {
        let front = s.drop_last();
        first_where_finds(front, p);
        if first_where(front, p) is Some {
            let x = first_where(front, p)->0;
            let i = choose|i: int|
                0 <= i < front.len() && #[trigger] front[i] == x && p(x) && forall|j: int|
                    0 <= j < i ==> !p(#[trigger] front[j]);
            assert(s[i] == x);
            assert forall|j: int| 0 <= j < i implies !p(#[trigger] s[j]) by {
                assert(front[j] == s[j]);
            }
        } else {
            assert forall|j: int| 0 <= j < front.len() implies !p(#[trigger] s[j]) by {
                assert(front[j] == s[j]);
            }
            if p(s.last()) {
                assert(s[s.len() - 1] == s.last());
            }
        }
    }
}

/// The element at the first index that satisfies the predicate is what
/// `first_where` finds.
pub proof fn first_where_is<T>(s: Seq<T>, p: spec_fn(T) -> bool, i: int)
    requires
        0 <= i < s.len(),
        p(s[i]),
        forall|j: int| 0 <= j < i ==> !p(#[trigger] s[j]),
    ensures
        first_where(s, p) == Some(s[i]),
{
    first_where_finds(s, p);
    let x = first_where(s, p);
    if x is None {
        assert(!p(s[i]));
    } else {
        let k = choose|k: int|
            0 <= k < s.len() && #[trigger] s[k] == x->0 && p(x->0) && forall|j: int|
                0 <= j < k ==> !p(#[trigger] s[j]);
        assert(!(k < i));
        assert(!(i < k)) by {
            if i < k {
                assert(!p(s[i]));
            }
        }
    }
}

/// Nothing satisfies the predicate, so `first_where` finds nothing.
pub proof fn first_where_none<T>(s: Seq<T>, p: spec_fn(T) -> bool)
    requires
        forall|j: int| 0 <= j < s.len() ==> !p(#[trigger] s[j]),
    ensures
        first_where(s, p) is None,
{
    first_where_finds(s, p);
}

/// What `last_where` finds is in the sequence and satisfies the predicate, and nothing
/// behind it does.
pub proof fn last_where_finds<T>(s: Seq<T>, p: spec_fn(T) -> bool)
    ensures
        match last_where(s, p) {
            Some(x) => exists|i: int|
                0 <= i < s.len() && #[trigger] s[i] == x && p(x) && forall|j: int|
                    i < j < s.len() ==> !p(#[trigger] s[j]),
            None => forall|j: int| 0 <= j < s.len() ==> !p(#[trigger] s[j]),
        },
    decreases s.len(),
{
    if s.len() > 0 {
        let front = s.drop_last();
        if p(s.last()) {
            assert(s[s.len() - 1] == s.last());
        } else {
            last_where_finds(front, p);
            if last_where(front, p) is Some {
                let x = last_where(front, p)->0;
                let i = choose|i: int|
                    0 <= i < front.len() && #[trigger] front[i] == x && p(x) && forall|j: int|
                        i < j < front.len() ==> !p(#[trigger] front[j]);
                assert(s[i] == x);
                assert forall|j: int| i < j < s.len() implies !p(#[trigger] s[j]) by {
                    if j < front.len() {
                        assert(front[j] == s[j]);
                    }
                }
            } else {
                assert forall|j: int| 0 <= j < s.len() implies !p(#[trigger] s[j]) by {
                    if j < front.len() {
                        assert(front[j] == s[j]);
                    }
                }
            }
        }
    }
}

} // verus!
