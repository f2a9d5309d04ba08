//! Queries on compound keys.
use vstd::prelude::*;

use crate::datatype::{DataType, DataTypeView};
use crate::scalar::{Order, ScalarValue, ScalarView};

verus! {

/// One end of a range.
#[derive(Debug)]
pub enum Bound<T> {
    Included(T),
    Excluded(T),
    Unbounded,
}

/// A compound key in the row format: keys compare as their bytes do.
#[derive(Debug)]
pub struct CompoundKey {
    bytes: Vec<u8>,
}

impl View for CompoundKey {
    type V = Seq<u8>;

    closed spec fn view(&self) -> Seq<u8> {
        self.bytes@
    }
}

impl CompoundKey {
    pub fn new(bytes: Vec<u8>) -> (r: CompoundKey)
        ensures
            r@ == bytes@,
    {
        CompoundKey { bytes }
    }

    pub fn as_bytes(&self) -> (r: &Vec<u8>)
        ensures
            r@ == self@,
    {
        &self.bytes
    }
}

/// A search on a compound index.
#[derive(Debug)]
pub enum CompoundSargableQuery {
    /// Rows whose key is the given one.
    FullKeyLookup(CompoundKey),
    /// Rows whose leading columns equal `prefix` and whose next column lies in
    /// `range`.
    PrefixLookup {
        prefix: Vec<ScalarValue>,
        range: Option<(Bound<ScalarValue>, Bound<ScalarValue>)>,
    },
    /// Rows whose key lies between two keys.
    Range { lower: Bound<CompoundKey>, upper: Bound<CompoundKey> },
}

pub enum QueryView {
    FullKeyLookup(Seq<u8>),
    PrefixLookup {
        prefix: Seq<ScalarView>,
        range: Option<(Bound<ScalarView>, Bound<ScalarView>)>,
    },
    Range { lower: Bound<Seq<u8>>, upper: Bound<Seq<u8>> },
}

pub open spec fn bound_view(b: Bound<ScalarValue>) -> Bound<ScalarView> {
    match b {
        Bound::Included(v) => Bound::Included(v@),
        Bound::Excluded(v) => Bound::Excluded(v@),
        Bound::Unbounded => Bound::Unbounded,
    }
}

pub open spec fn key_bound_view(b: Bound<CompoundKey>) -> Bound<Seq<u8>> {
    match b {
        Bound::Included(v) => Bound::Included(v@),
        Bound::Excluded(v) => Bound::Excluded(v@),
        Bound::Unbounded => Bound::Unbounded,
    }
}

pub open spec fn range_view(
    r: Option<(Bound<ScalarValue>, Bound<ScalarValue>)>,
) -> Option<(Bound<ScalarView>, Bound<ScalarView>)> {
    match r {
        Some((lower, upper)) => Some((bound_view(lower), bound_view(upper))),
        None => None,
    }
}

impl View for CompoundSargableQuery {
    type V = QueryView;

    open spec fn view(&self) -> QueryView {
        match *self {
            CompoundSargableQuery::FullKeyLookup(key) => QueryView::FullKeyLookup(key@),
            CompoundSargableQuery::PrefixLookup { prefix, range } => QueryView::PrefixLookup {
                prefix: crate::scalar::scalars(prefix@),
                range: range_view(range),
            },
            CompoundSargableQuery::Range { lower, upper } => QueryView::Range {
                lower: key_bound_view(lower),
                upper: key_bound_view(upper),
            },
        }
    }
}

/// A copy of a bound.
pub fn clone_bound(b: &Bound<ScalarValue>) -> (r: Bound<ScalarValue>)
    ensures
        bound_view(r) == bound_view(*b),
{
    match b {
        Bound::Included(v) => Bound::Included(v.clone()),
        Bound::Excluded(v) => Bound::Excluded(v.clone()),
        Bound::Unbounded => Bound::Unbounded,
    }
}

impl CompoundSargableQuery {
    /// Rows whose leading columns equal `prefix`.
    pub fn prefix_lookup(prefix: Vec<ScalarValue>) -> (r: CompoundSargableQuery)
        ensures
            r@ == (QueryView::PrefixLookup {
                prefix: crate::scalar::scalars(prefix@),
                range: None,
            }),
    {
        CompoundSargableQuery::PrefixLookup { prefix, range: None }
    }

    /// Rows whose leading columns equal `prefix` and whose next column lies in
    /// `range`.
    pub fn prefix_lookup_with_range(
        prefix: Vec<ScalarValue>,
        range: (Bound<ScalarValue>, Bound<ScalarValue>),
    ) -> (r: CompoundSargableQuery)
        ensures
            r@ == (QueryView::PrefixLookup {
                prefix: crate::scalar::scalars(prefix@),
                range: Some((bound_view(range.0), bound_view(range.1))),
            }),
    {
        CompoundSargableQuery::PrefixLookup { prefix, range: Some(range) }
    }
}

/// `v` is not below a lower bound.
pub open spec fn above(v: ScalarView, lower: Bound<ScalarView>) -> bool {
    match lower {
        Bound::Unbounded => true,
        Bound::Included(b) => crate::scalar::scalar_order(v, b) is Some
            && crate::scalar::scalar_order(v, b) != Some(Order::Less),
        Bound::Excluded(b) => crate::scalar::scalar_order(v, b) == Some(Order::Greater),
    }
}

/// `v` is not above an upper bound.
pub open spec fn below(v: ScalarView, upper: Bound<ScalarView>) -> bool {
    match upper {
        Bound::Unbounded => true,
        Bound::Included(b) => crate::scalar::scalar_order(v, b) is Some
            && crate::scalar::scalar_order(v, b) != Some(Order::Greater),
        Bound::Excluded(b) => crate::scalar::scalar_order(v, b) == Some(Order::Less),
    }
}

/// `v` lies in a range. Null lies in none.
pub open spec fn in_range(
    v: ScalarView,
    lower: Bound<ScalarView>,
    upper: Bound<ScalarView>,
) -> bool {
    !v.is_null() && above(v, lower) && below(v, upper)
}

/// Whether a value lies in a range.
pub fn is_in_range(
    value: &ScalarValue,
    lower: &Bound<ScalarValue>,
    upper: &Bound<ScalarValue>,
) -> (r: bool)
    ensures
        r == in_range(value@, bound_view(*lower), bound_view(*upper)),
{
    if value.is_null() {
        return false;
    }
    let lower_ok = match lower {
        Bound::Unbounded => true,
        Bound::Included(v) => match value.order(v) {
            Some(Order::Less) => false,
            Some(_) => true,
            None => false,
        },
        Bound::Excluded(v) => match value.order(v) {
            Some(Order::Greater) => true,
            _ => false,
        },
    };
    let upper_ok = match upper {
        Bound::Unbounded => true,
        Bound::Included(v) => match value.order(v) {
            Some(Order::Greater) => false,
            Some(_) => true,
            None => false,
        },
        Bound::Excluded(v) => match value.order(v) {
            Some(Order::Less) => true,
            _ => false,
        },
    };
    lower_ok && upper_ok
}

/// `row` lies between two keys, all in the row format.
pub open spec fn key_in_range(
    row: Seq<u8>,
    lower: Bound<Seq<u8>>,
    upper: Bound<Seq<u8>>,
) -> bool {
    &&& match lower {
        Bound::Unbounded => true,
        Bound::Included(k) => bytes_compare(row, k) != Order::Less,
        Bound::Excluded(k) => bytes_compare(row, k) == Order::Greater,
    }
    &&& match upper {
        Bound::Unbounded => true,
        Bound::Included(k) => bytes_compare(row, k) != Order::Greater,
        Bound::Excluded(k) => bytes_compare(row, k) == Order::Less,
    }
}

/// Lexicographic order of byte strings.
pub open spec fn bytes_compare(a: Seq<u8>, b: Seq<u8>) -> Order {
    crate::scalar::seq_order(crate::scalar::byte_values(a), crate::scalar::byte_values(b))
}

/// Whether a row lies between two keys, all in the row format.
pub fn is_key_in_range(
    row: &Vec<u8>,
    lower: &Bound<CompoundKey>,
    upper: &Bound<CompoundKey>,
) -> (r: bool)
    ensures
        r == key_in_range(row@, key_bound_view(*lower), key_bound_view(*upper)),
{
    let lower_ok = match lower {
        Bound::Unbounded => true,
        Bound::Included(k) => match crate::scalar::bytes_order(row, k.as_bytes()) {
            Order::Less => false,
            _ => true,
        },
        Bound::Excluded(k) => match crate::scalar::bytes_order(row, k.as_bytes()) {
            Order::Greater => true,
            _ => false,
        },
    };
    let upper_ok = match upper {
        Bound::Unbounded => true,
        Bound::Included(k) => match crate::scalar::bytes_order(row, k.as_bytes()) {
            Order::Greater => false,
            _ => true,
        },
        Bound::Excluded(k) => match crate::scalar::bytes_order(row, k.as_bytes()) {
            Order::Less => true,
            _ => false,
        },
    };
    lower_ok && upper_ok
}

/// The indexed columns, in index order, with their types.
#[derive(Debug)]
pub struct CompoundIndexSchema {
    columns: Vec<String>,
    data_types: Vec<DataType>,
}

impl CompoundIndexSchema {
    pub closed spec fn column_texts(&self) -> Seq<Seq<char>> {
        crate::text::texts(self.columns@)
    }

    pub closed spec fn type_views(&self) -> Seq<DataTypeView> {
        crate::datatype::types(self.data_types@)
    }

    pub fn new(columns: Vec<String>, data_types: Vec<DataType>) -> (r: CompoundIndexSchema)
        ensures
            r.column_texts() == crate::text::texts(columns@),
            r.type_views() == crate::datatype::types(data_types@),
    {
        CompoundIndexSchema { columns, data_types }
    }

    pub fn columns(&self) -> (r: &Vec<String>)
        ensures
            crate::text::texts(r@) == self.column_texts(),
    {
        &self.columns
    }

    pub fn data_types(&self) -> (r: &Vec<DataType>)
        ensures
            crate::datatype::types(r@) == self.type_views(),
    {
        &self.data_types
    }

    pub fn num_columns(&self) -> (r: usize)
        ensures
            r == self.column_texts().len(),
    {
        self.columns.len()
    }
}

/// A range is its two ends: a value lies in it exactly when it lies above the
/// lower end, with no upper one, and below the upper end, with no lower one.
pub proof fn range_is_its_two_ends(
    v: ScalarView,
    lower: Bound<ScalarView>,
    upper: Bound<ScalarView>,
)
    ensures
        in_range(v, lower, upper) <==> in_range(v, lower, Bound::Unbounded) && in_range(
            v,
            Bound::Unbounded,
            upper,
        ),
        in_range(v, Bound::Unbounded, Bound::Unbounded) <==> v.key is Some,
        v.key is None ==> !in_range(v, lower, upper),
{
}

/// What an end of a range lets through: from an included end on, from after an
/// excluded one on; up to an included end, up to before an excluded one.
pub proof fn range_ends_mean_themselves(v: ScalarView, end: ScalarView)
    requires
        v.key is Some,
    ensures
        in_range(v, Bound::Included(end), Bound::Unbounded) <==> crate::scalar::scalar_le(end, v),
        in_range(v, Bound::Excluded(end), Bound::Unbounded) <==> crate::scalar::scalar_order(end, v)
            == Some(Order::Less),
        in_range(v, Bound::Unbounded, Bound::Included(end)) <==> crate::scalar::scalar_le(v, end),
        in_range(v, Bound::Unbounded, Bound::Excluded(end)) <==> crate::scalar::scalar_order(end, v)
            == Some(Order::Greater),
{
    crate::scalar::scalar_order_flip(v, end);
    crate::scalar::scalar_order_flip(end, v);
}

/// Both ends at once: a value lies between two others, ends taken in or left
/// out, exactly when it is not before the first and not after the second, and
/// not one that is left out. `BETWEEN` takes in both ends.
pub proof fn between_has_both_ends(v: ScalarView, a: ScalarView, b: ScalarView)
    requires
        v.key is Some,
    ensures
        in_range(v, Bound::Included(a), Bound::Included(b)) <==> crate::scalar::scalar_le(a, v)
            && crate::scalar::scalar_le(v, b),
        in_range(v, Bound::Excluded(a), Bound::Included(b)) <==> in_range(
            v,
            Bound::Included(a),
            Bound::Included(b),
        ) && crate::scalar::scalar_order(v, a) != Some(Order::Equal),
        in_range(v, Bound::Included(a), Bound::Excluded(b)) <==> in_range(
            v,
            Bound::Included(a),
            Bound::Included(b),
        ) && crate::scalar::scalar_order(v, b) != Some(Order::Equal),
        in_range(v, Bound::Excluded(a), Bound::Excluded(b)) <==> in_range(
            v,
            Bound::Excluded(a),
            Bound::Included(b),
        ) && in_range(v, Bound::Included(a), Bound::Excluded(b)),
{
    crate::scalar::scalar_order_flip(v, a);
    crate::scalar::scalar_order_flip(v, b);
    crate::scalar::scalar_order_flip(a, v);
}

/// A number is not below an end.
pub open spec fn from_end(x: int, end: Bound<int>) -> bool {
    match end {
        Bound::Included(a) => a <= x,
        Bound::Excluded(a) => a < x,
        Bound::Unbounded => true,
    }
}

/// A number is not above an end.
pub open spec fn to_end(x: int, end: Bound<int>) -> bool {
    match end {
        Bound::Included(a) => x <= a,
        Bound::Excluded(a) => x < a,
        Bound::Unbounded => true,
    }
}

/// The end that a number stands for, as a value of a 64-bit column.
pub open spec fn int64_end(end: Bound<int>) -> Bound<ScalarValue> {
    match end {
        Bound::Included(a) => Bound::Included(ScalarValue::Int64(Some(a as i64))),
        Bound::Excluded(a) => Bound::Excluded(ScalarValue::Int64(Some(a as i64))),
        Bound::Unbounded => Bound::Unbounded,
    }
}

/// An end that a 64-bit column can have.
pub open spec fn is_int64_end(end: Bound<int>) -> bool {
    match end {
        Bound::Included(a) => i64::MIN <= a <= i64::MAX,
        Bound::Excluded(a) => i64::MIN <= a <= i64::MAX,
        Bound::Unbounded => true,
    }
}

/// Numbers lie in a range of values exactly when they lie in the range of
/// numbers.
pub proof fn numbers_lie_in_ranges(x: i64, lower: Bound<int>, upper: Bound<int>)
    requires
        is_int64_end(lower),
        is_int64_end(upper),
    ensures
        in_range(
            ScalarValue::Int64(Some(x))@,
            bound_view(int64_end(lower)),
            bound_view(int64_end(upper)),
        ) <==> from_end(x as int, lower) && to_end(x as int, upper),
        !in_range(
            ScalarValue::Int64(None)@,
            bound_view(int64_end(lower)),
            bound_view(int64_end(upper)),
        ),
{
}

/// `a` comes before `b`: they agree on their first bytes, and then `a` ends or
/// has the smaller byte.
pub open spec fn key_before(a: Seq<u8>, b: Seq<u8>) -> bool {
    exists|n: int| #[trigger] differs_at(a, b, n)
}

/// The first `n` bytes agree, and at `n` the first key ends or has the smaller
/// byte.
pub open spec fn differs_at(a: Seq<u8>, b: Seq<u8>, n: int) -> bool {
    0 <= n <= a.len() && n < b.len() && a.take(n) == b.take(n) && (n == a.len() || a[n] < b[n])
}

/// Keys compare as in a dictionary.
pub proof fn keys_compare_by_first_difference(a: Seq<u8>, b: Seq<u8>)
    ensures
        bytes_compare(a, b) == Order::Less <==> key_before(a, b),
        bytes_compare(a, b) == Order::Greater <==> key_before(b, a),
        bytes_compare(a, b) == Order::Equal <==> a == b,
{
    crate::index::same_bytes(a, b);
    keys_before_compare_less(a, b);
    keys_before_compare_less(b, a);
    crate::scalar::seq_order_flip(
        crate::scalar::byte_values(a),
        crate::scalar::byte_values(b),
    );
}

proof fn keys_before_compare_less(a: Seq<u8>, b: Seq<u8>)
    ensures
        bytes_compare(a, b) == Order::Less <==> key_before(a, b),
{
    let x = crate::scalar::byte_values(a);
    let y = crate::scalar::byte_values(b);
    if key_before(a, b) {
        let n = choose|n: int| #[trigger] differs_at(a, b, n);
        assert forall|i: int| 0 <= i < n implies #[trigger] x[i] == y[i] by {
            assert(a.take(n)[i] == b.take(n)[i]);
        }
        crate::scalar::dictionary_order(x, y, n);
    }
    if bytes_compare(a, b) == Order::Less {
        crate::scalar::dictionary_place(x, y);
        let n = choose|n: int| crate::scalar::precedes_at(x, y, n);
        assert(a.take(n) =~= b.take(n)) by {
            assert forall|i: int| 0 <= i < n implies a[i] == b[i] by {
                assert(x[i] == y[i]);
            }
        }
        assert(differs_at(a, b, n));
    }
}

/// A range of keys is its two ends, and each end lets through what it says: an
/// included key and those after it, those after an excluded key; an included key
/// and those before it, those before an excluded key.
pub proof fn key_range_is_its_two_ends(
    row: Seq<u8>,
    lower: Bound<Seq<u8>>,
    upper: Bound<Seq<u8>>,
    key: Seq<u8>,
)
    ensures
        key_in_range(row, lower, upper) <==> key_in_range(row, lower, Bound::Unbounded)
            && key_in_range(row, Bound::Unbounded, upper),
        key_in_range(row, Bound::Unbounded, Bound::Unbounded),
        key_in_range(row, Bound::Included(key), Bound::Unbounded) <==> row == key || key_before(
            key,
            row,
        ),
        key_in_range(row, Bound::Excluded(key), Bound::Unbounded) <==> key_before(key, row),
        key_in_range(row, Bound::Unbounded, Bound::Included(key)) <==> row == key || key_before(
            row,
            key,
        ),
        key_in_range(row, Bound::Unbounded, Bound::Excluded(key)) <==> key_before(row, key),
{
    keys_compare_by_first_difference(row, key);
}

/// A key parts the rows: each lies up to it or after it, and each before it or
/// from it on, and none in both.
pub proof fn key_parts_rows(row: Seq<u8>, key: Seq<u8>)
    ensures
        key_in_range(row, Bound::Unbounded, Bound::Included(key)) != key_in_range(
            row,
            Bound::Excluded(key),
            Bound::Unbounded,
        ),
        key_in_range(row, Bound::Unbounded, Bound::Excluded(key)) != key_in_range(
            row,
            Bound::Included(key),
            Bound::Unbounded,
        ),
        key_in_range(row, Bound::Included(key), Bound::Included(key)) <==> row == key,
        !key_in_range(row, Bound::Excluded(key), Bound::Included(key)),
        !key_in_range(row, Bound::Included(key), Bound::Excluded(key)),
{
    crate::index::same_bytes(row, key);
}

/// One end of a range stands for another: the same side, and the same value.
pub open spec fn end_stands_for(end: Bound<ScalarValue>, v: Bound<ScalarView>) -> bool {
    match (end, v) {
        (Bound::Included(x), Bound::Included(y)) => x@ == y,
        (Bound::Excluded(x), Bound::Excluded(y)) => x@ == y,
        (Bound::Unbounded, Bound::Unbounded) => true,
        _ => false,
    }
}

/// As `end_stands_for`, for keys.
pub open spec fn key_end_stands_for(end: Bound<CompoundKey>, v: Bound<Seq<u8>>) -> bool {
    match (end, v) {
        (Bound::Included(x), Bound::Included(y)) => x@ == y,
        (Bound::Excluded(x), Bound::Excluded(y)) => x@ == y,
        (Bound::Unbounded, Bound::Unbounded) => true,
        _ => false,
    }
}

/// A query asks for what it was given: the key, the prefix value by value and
/// the ends of the range, each on its own side.
pub proof fn query_asks_for_what_it_is_given(q: CompoundSargableQuery)
    ensures
        match (q, q@) {
            (CompoundSargableQuery::FullKeyLookup(key), QueryView::FullKeyLookup(bytes)) => key@
                == bytes,
            (
                CompoundSargableQuery::PrefixLookup { prefix, range },
                QueryView::PrefixLookup { prefix: values, range: ends },
            ) => {
                &&& prefix@.len() == values.len()
                &&& forall|i: int| 0 <= i < values.len() ==> #[trigger] values[i] == prefix@[i]@
                &&& match (range, ends) {
                    (Some((a, b)), Some((x, y))) => end_stands_for(a, x) && end_stands_for(b, y),
                    (None, None) => true,
                    _ => false,
                }
            },
            (
                CompoundSargableQuery::Range { lower, upper },
                QueryView::Range { lower: x, upper: y },
            ) => key_end_stands_for(lower, x) && key_end_stands_for(upper, y),
            _ => false,
        },
{
}

/// Testing a value against a range is testing it against each end alone.
pub proof fn range_test_is_two_tests(
    value: &ScalarValue,
    lower: &Bound<ScalarValue>,
    upper: &Bound<ScalarValue>,
    open: &Bound<ScalarValue>,
    both: bool,
    from: bool,
    to: bool,
)
    requires
        *open == Bound::<ScalarValue>::Unbounded,
        call_ensures(is_in_range, (value, lower, upper), both),
        call_ensures(is_in_range, (value, lower, open), from),
        call_ensures(is_in_range, (value, open, upper), to),
    ensures
        both == (from && to),
{
}

/// Testing a number against a range of numbers, ends taken in, left out or open,
/// says whether it lies between them.
pub proof fn range_test_compares_numbers(
    value: &ScalarValue,
    lower: &Bound<ScalarValue>,
    upper: &Bound<ScalarValue>,
    x: i64,
    from: Bound<int>,
    to: Bound<int>,
    r: bool,
)
    requires
        is_int64_end(from),
        is_int64_end(to),
        *value == ScalarValue::Int64(Some(x)),
        *lower == int64_end(from),
        *upper == int64_end(to),
        call_ensures(is_in_range, (value, lower, upper), r),
    ensures
        r == (from_end(x as int, from) && to_end(x as int, to)),
{
    numbers_lie_in_ranges(x, from, to);
}

/// Testing a key against a range of keys says whether it comes between them in
/// dictionary order, whatever the other end is: an end that is left out is left
/// out.
pub proof fn key_range_test_compares_keys(
    row: &Vec<u8>,
    lower: &Bound<CompoundKey>,
    upper: &Bound<CompoundKey>,
    r: bool,
)
    requires
        call_ensures(is_key_in_range, (row, lower, upper), r),
    ensures
        r == ((match *lower {
            Bound::Included(k) => !key_before(row@, k@),
            Bound::Excluded(k) => key_before(k@, row@),
            Bound::Unbounded => true,
        }) && (match *upper {
            Bound::Included(k) => !key_before(k@, row@),
            Bound::Excluded(k) => key_before(row@, k@),
            Bound::Unbounded => true,
        })),
{
    match *lower {
        Bound::Included(k) | Bound::Excluded(k) => keys_compare_by_first_difference(row@, k@),
        Bound::Unbounded => {},
    }
    match *upper {
        Bound::Included(k) | Bound::Excluded(k) => keys_compare_by_first_difference(row@, k@),
        Bound::Unbounded => {},
    }
}

} // verus!
