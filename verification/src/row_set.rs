//! Sets of row addresses and of fragment ids.
use vstd::prelude::*;

use lance_core::utils::mask::RowAddrTreeMap;
use roaring::RoaringBitmap;

verus! {

/// The row address set of `lance_core`.
#[verifier::external_type_specification]
#[verifier::external_body]
pub struct ExRowAddrTreeMap(RowAddrTreeMap);

/// The row addresses that a set holds.
pub uninterp spec fn row_addrs(m: RowAddrTreeMap) -> Set<u64>;

/// `RowAddrTreeMap::new`: a set that holds nothing.
#[verifier::external_body]
pub(crate) fn new_row_set() -> (r: RowAddrTreeMap)
    ensures
        row_addrs(r) == Set::<u64>::empty(),
{
    RowAddrTreeMap::new()
}

/// `RowAddrTreeMap::insert`: adds one address and says whether it is new.
#[verifier::external_body]
pub(crate) fn insert_row(m: &mut RowAddrTreeMap, addr: u64) -> (r: bool)
    ensures
        row_addrs(*final(m)) == row_addrs(*old(m)).insert(addr),
        r == !row_addrs(*old(m)).contains(addr),
{
    m.insert(addr)
}

/// `RowAddrTreeMap`'s `|=`: adds every address of another set.
#[verifier::external_body]
pub(crate) fn union_rows(m: &mut RowAddrTreeMap, other: RowAddrTreeMap)
    ensures
        row_addrs(*final(m)) == row_addrs(*old(m)).union(row_addrs(other)),
{
    *m |= other;
}

/// The ids of those of the first `n` rows that have a property.
pub open spec fn collected(
    n: nat,
    p: spec_fn(int) -> bool,
    id: spec_fn(int) -> u64,
) -> Set<u64>
    decreases n,
{
    if n == 0 {
        Set::empty()
    } else {
        let rest = collected((n - 1) as nat, p, id);
        if p(n - 1) {
            rest.insert(id(n - 1))
        } else {
            rest
        }
    }
}

/// An id is collected exactly when some row with the property has it.
pub proof fn collected_contains(
    n: nat,
    p: spec_fn(int) -> bool,
    id: spec_fn(int) -> u64,
    x: u64,
)
    ensures
        collected(n, p, id).contains(x) <==> exists|i: int|
            0 <= i < n && #[trigger] p(i) && id(i) == x,
    decreases n,
{
    if n > 0 {
        collected_contains((n - 1) as nat, p, id, x);
        if p(n - 1) && id(n - 1) == x {
            assert(collected(n, p, id).contains(x));
        } else if collected(n, p, id).contains(x) {
            let i = choose|i: int| 0 <= i < n - 1 && #[trigger] p(i) && id(i) == x;
            assert(0 <= i < n && p(i) && id(i) == x);
        }
    }
}

/// Nothing is collected where no row has the property.
pub proof fn collected_nothing(n: nat, p: spec_fn(int) -> bool, id: spec_fn(int) -> u64)
    requires
        forall|i: int| 0 <= i < n ==> !(#[trigger] p(i)),
    ensures
        collected(n, p, id) == Set::<u64>::empty(),
    decreases n,
{
    if n > 0 {
        collected_nothing((n - 1) as nat, p, id);
    }
}

/// Properties that agree on the first `n` rows collect the same ids.
pub proof fn collected_same(
    n: nat,
    p: spec_fn(int) -> bool,
    q: spec_fn(int) -> bool,
    id: spec_fn(int) -> u64,
)
    requires
        forall|i: int| 0 <= i < n ==> #[trigger] p(i) == #[trigger] q(i),
    ensures
        collected(n, p, id) == collected(n, q, id),
    decreases n,
{
    if n > 0 {
        collected_same((n - 1) as nat, p, q, id);
        assert(p(n - 1) == q(n - 1));
    }
}

/// Rows without the property at the end add nothing.
pub proof fn collected_prefix(
    m: nat,
    n: nat,
    p: spec_fn(int) -> bool,
    id: spec_fn(int) -> u64,
)
    requires
        m <= n,
        forall|i: int| m <= i < n ==> !(#[trigger] p(i)),
    ensures
        collected(m, p, id) == collected(n, p, id),
    decreases n,
{
    if m < n {
        collected_prefix(m, (n - 1) as nat, p, id);
        assert(!p(n - 1));
    }
}

/// The bitmap of `roaring`.
#[verifier::external_type_specification]
#[verifier::external_body]
pub struct ExRoaringBitmap(RoaringBitmap);

/// The numbers that a bitmap holds.
pub uninterp spec fn bits(m: RoaringBitmap) -> Set<u32>;

/// `RoaringBitmap::new`: a bitmap that holds nothing.
#[verifier::external_body]
pub(crate) fn new_bitmap() -> (r: RoaringBitmap)
    ensures
        bits(r) == Set::<u32>::empty(),
{
    RoaringBitmap::new()
}

/// `RoaringBitmap::insert`: adds one number and says whether it is new.
#[verifier::external_body]
pub(crate) fn insert_bit(m: &mut RoaringBitmap, value: u32) -> (r: bool)
    ensures
        bits(*final(m)) == bits(*old(m)).insert(value),
        r == !bits(*old(m)).contains(value),
{
    m.insert(value)
}

} // verus!
