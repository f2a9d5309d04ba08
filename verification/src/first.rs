//! The first position at which a property holds.
use vstd::prelude::*;

verus! {

/// The smallest `i` below `n` with `p(i)`, if there is one.
pub open spec fn first_where(n: nat, p: spec_fn(int) -> bool) -> Option<int>
    decreases n,
{
    if n == 0 {
        None
    } else {
        match first_where((n - 1) as nat, p) {
            Some(i) => Some(i),
            None => if p(n - 1) {
                Some(n - 1)
            } else {
                None
            },
        }
    }
}

/// `first_where` finds `i` when `p(i)` holds and no smaller position has `p`.
pub proof fn first_where_found(n: nat, p: spec_fn(int) -> bool, i: int)
    requires
        0 <= i < n,
        p(i),
        forall|j: int| 0 <= j < i ==> !(#[trigger] p(j)),
    ensures
        first_where(n, p) == Some(i),
    decreases n,
{
    if i == n - 1 {
        first_where_absent((n - 1) as nat, p);
    } else {
        first_where_found((n - 1) as nat, p, i);
    }
}

/// `first_where` finds nothing when `p` holds nowhere.
pub proof fn first_where_absent(n: nat, p: spec_fn(int) -> bool)
    requires
        forall|j: int| 0 <= j < n ==> !(#[trigger] p(j)),
    ensures
        first_where(n, p) is None,
    decreases n,
{
    if n > 0 {
        first_where_absent((n - 1) as nat, p);
    }
}

/// What `first_where` says of the positions below `n`.
pub proof fn first_where_spec(n: nat, p: spec_fn(int) -> bool)
    ensures
        match first_where(n, p) {
            Some(i) => 0 <= i < n && p(i) && forall|j: int| 0 <= j < i ==> !(#[trigger] p(j)),
            None => forall|j: int| 0 <= j < n ==> !(#[trigger] p(j)),
        },
    decreases n,
{
    if n > 0 {
        first_where_spec((n - 1) as nat, p);
    }
}

} // verus!
