//! Page routing: which pages of an index a query has to look at.
use vstd::prelude::*;

use crate::batch::{BatchView, RecordBatch};
use crate::compound::{Bound, CompoundSargableQuery, QueryView};
use crate::datatype::{DataType, DataTypeView};
use crate::error::{Error, ErrorOf, ErrorView};
use crate::scalar::{Order, ScalarValue, ScalarView};
use crate::text::concat3;

verus! {

/// Statistics for a single page: per column the smallest and the largest value
/// and the number of nulls.
#[derive(Debug)]
pub struct CompoundPageStats {
    pub mins: Vec<ScalarValue>,
    pub maxs: Vec<ScalarValue>,
    pub null_counts: Vec<u32>,
    pub page_number: u32,
}

#[verifier::ext_equal]
pub struct PageStatsView {
    pub mins: Seq<ScalarView>,
    pub maxs: Seq<ScalarView>,
    pub null_counts: Seq<u32>,
    pub page_number: u32,
}

impl View for CompoundPageStats {
    type V = PageStatsView;

    open spec fn view(&self) -> PageStatsView {
        PageStatsView {
            mins: crate::scalar::scalars(self.mins@),
            maxs: crate::scalar::scalars(self.maxs@),
            null_counts: self.null_counts@,
            page_number: self.page_number,
        }
    }
}

impl Clone for CompoundPageStats {
    fn clone(&self) -> (r: Self)
        ensures
            r@ == self@,
    {
        let null_counts = self.null_counts.clone();
        assert(null_counts@ =~= self.null_counts@);
        CompoundPageStats {
            mins: crate::scalar::clone_scalars(&self.mins),
            maxs: crate::scalar::clone_scalars(&self.maxs),
            null_counts,
            page_number: self.page_number,
        }
    }
}

impl PageStatsView {
    /// There are statistics for `n` columns.
    pub open spec fn complete(self, n: nat) -> bool {
        self.mins.len() >= n && self.maxs.len() >= n && self.null_counts.len() >= n
    }
}

/// The views of a vector of page statistics.
pub open spec fn page_stats_views(v: Seq<CompoundPageStats>) -> Seq<PageStatsView> {
    Seq::new(v.len(), |i: int| v[i]@)
}

/// A column is known to hold only nulls when its smallest and its largest
/// value are null.
pub open spec fn all_null(stats: PageStatsView, col: int) -> bool {
    stats.mins[col].is_null() && stats.maxs[col].is_null()
}

/// The page is known to have no row with `value` in column `col`: looking for
/// null where there is none, for a value where there are only nulls, or for a
/// value below the smallest or above the largest.
pub open spec fn prunes_equality(
    stats: PageStatsView,
    n: nat,
    col: int,
    value: ScalarView,
) -> bool {
    col < n && if value.is_null() {
        stats.null_counts[col] == 0
    } else {
        ||| all_null(stats, col)
        ||| !stats.mins[col].is_null() && crate::scalar::scalar_order(value, stats.mins[col])
            == Some(Order::Less)
        ||| !stats.maxs[col].is_null() && crate::scalar::scalar_order(value, stats.maxs[col])
            == Some(Order::Greater)
    }
}

/// A range ends below `min`.
pub open spec fn ends_below(upper: Bound<ScalarView>, min: ScalarView) -> bool {
    match upper {
        Bound::Included(v) => crate::scalar::scalar_order(v, min) == Some(Order::Less),
        Bound::Excluded(v) => crate::scalar::scalar_order(v, min) == Some(Order::Less)
            || crate::scalar::scalar_order(v, min) == Some(Order::Equal),
        Bound::Unbounded => false,
    }
}

/// A range starts above `max`.
pub open spec fn starts_above(lower: Bound<ScalarView>, max: ScalarView) -> bool {
    match lower {
        Bound::Included(v) => crate::scalar::scalar_order(v, max) == Some(Order::Greater),
        Bound::Excluded(v) => crate::scalar::scalar_order(v, max) == Some(Order::Greater)
            || crate::scalar::scalar_order(v, max) == Some(Order::Equal),
        Bound::Unbounded => false,
    }
}

/// The page is known to have no row whose column `col` lies in the range.
pub open spec fn prunes_range(
    stats: PageStatsView,
    n: nat,
    col: int,
    lower: Bound<ScalarView>,
    upper: Bound<ScalarView>,
) -> bool {
    col < n && {
        ||| all_null(stats, col)
        ||| !stats.mins[col].is_null() && ends_below(upper, stats.mins[col])
        ||| !stats.maxs[col].is_null() && starts_above(lower, stats.maxs[col])
    }
}

/// The page is known to have no row that matches the query. Full keys and key
/// ranges are not held against the statistics.
pub open spec fn prunes_page(stats: PageStatsView, n: nat, query: QueryView) -> bool {
    match query {
        QueryView::PrefixLookup { prefix, range } => {
            ||| exists|i: int|
                0 <= i < prefix.len() && #[trigger] prunes_equality(stats, n, i, prefix[i])
            ||| match range {
                Some((lower, upper)) => prunes_range(stats, n, prefix.len() as int, lower, upper),
                None => false,
            }
        },
        _ => false,
    }
}

/// The numbers of the pages that are not pruned, in order.
pub open spec fn candidates(pages: Seq<PageStatsView>, n: nat, query: QueryView) -> Seq<u32>
    decreases pages.len(),
{
    if pages.len() == 0 {
        Seq::empty()
    } else {
        let rest = candidates(pages.drop_last(), n, query);
        if prunes_page(pages.last(), n, query) {
            rest
        } else {
            rest.push(pages.last().page_number)
        }
    }
}

/// A column has statistics and nulls in the page.
pub open spec fn has_nulls(stats: PageStatsView, col: int) -> bool {
    col < stats.null_counts.len() && stats.null_counts[col] > 0
}

/// The numbers of the pages with nulls in a column, in order.
pub open spec fn null_pages(pages: Seq<PageStatsView>, col: int) -> Seq<u32>
    decreases pages.len(),
{
    if pages.len() == 0 {
        Seq::empty()
    } else {
        let rest = null_pages(pages.drop_last(), col);
        if has_nulls(pages.last(), col) {
            rest.push(pages.last().page_number)
        } else {
            rest
        }
    }
}

/// In-memory lookup structure for compound index pages: the statistics of
/// every page and the types of the indexed columns.
#[derive(Debug)]
pub struct CompoundBTreeLookup {
    page_stats: Vec<CompoundPageStats>,
    num_columns: usize,
    data_types: Vec<DataType>,
}

#[verifier::ext_equal]
pub struct LookupView {
    pub page_stats: Seq<PageStatsView>,
    pub data_types: Seq<DataTypeView>,
}

impl LookupView {
    pub open spec fn num_columns(self) -> nat {
        self.data_types.len()
    }

    /// Every page has statistics for every column.
    pub open spec fn complete(self) -> bool {
        forall|p: int|
            0 <= p < self.page_stats.len() ==> (#[trigger] self.page_stats[p]).complete(
                self.num_columns(),
            )
    }
}

impl View for CompoundBTreeLookup {
    type V = LookupView;

    closed spec fn view(&self) -> LookupView {
        LookupView {
            page_stats: page_stats_views(self.page_stats@),
            data_types: crate::datatype::types(self.data_types@),
        }
    }
}

/// What reading a lookup batch needs: the minima of every indexed column, whose
/// type is that of the column, and where there are pages all three columns of
/// each and a last one. Nulls among counts and page numbers read as zero.
pub open spec fn readable_lookup(batch: BatchView, n: nat) -> bool {
    &&& batch.wf()
    &&& n > 0 ==> batch.columns.len() > 3 * (n - 1)
    &&& batch.rows > 0 ==> batch.columns.len() > 0 && batch.columns.len() >= 3 * n
}

/// The position of the null counts of an indexed column.
pub open spec fn count_column(c: int) -> int {
    3 * c + 2
}

/// The statistics of one page as a row of the lookup batch has them.
pub open spec fn parsed_page(batch: BatchView, n: nat, row: int) -> PageStatsView {
    PageStatsView {
        mins: Seq::new(n, |c: int| batch.columns[3 * c].values[row]),
        maxs: Seq::new(n, |c: int| batch.columns[3 * c + 1].values[row]),
        null_counts: Seq::new(
            n,
            |c: int| crate::batch::u32_of(batch.columns[count_column(c)].values[row]),
        ),
        page_number: crate::batch::u32_of(batch.columns.last().values[row]),
    }
}

/// The lookup structure that a lookup batch holds.
pub open spec fn parsed_lookup(batch: BatchView, n: nat) -> LookupView {
    LookupView {
        page_stats: Seq::new(batch.rows, |row: int| parsed_page(batch, n, row)),
        data_types: Seq::new(n, |c: int| batch.schema.fields[3 * c].data_type),
    }
}

/// The property of being an indexed column whose counts are not 32-bit numbers.
pub open spec fn has_bad_counts(batch: BatchView) -> spec_fn(int) -> bool {
    |c: int| !(batch.columns[count_column(c)].data_type is UInt32)
}

/// Why a lookup batch cannot be read, if it cannot.
pub open spec fn lookup_defect(batch: BatchView, names: Seq<Seq<char>>) -> Option<ErrorView> {
    if batch.rows == 0 {
        None
    } else if !(batch.columns.last().data_type is UInt32) {
        Some(crate::error::index_error("page_idx column is not UInt32"@))
    } else {
        match crate::first::first_where(names.len(), has_bad_counts(batch)) {
            Some(c) => Some(
                crate::error::index_error(
                    "null_count column for "@ + names[c] + " is not UInt32"@,
                ),
            ),
            None => None,
        }
    }
}

impl CompoundBTreeLookup {
    #[verifier::type_invariant]
    spec fn inv(self) -> bool {
        self.num_columns == self.data_types@.len()
    }

    /// A lookup of the given page statistics.
    pub fn new(page_stats: Vec<CompoundPageStats>, data_types: Vec<DataType>) -> (r:
        CompoundBTreeLookup)
        ensures
            r@ == (LookupView {
                page_stats: page_stats_views(page_stats@),
                data_types: crate::datatype::types(data_types@),
            }),
    {
        let num_columns = data_types.len();
        CompoundBTreeLookup { page_stats, num_columns, data_types }
    }

    /// Parse a lookup from its serialized form, the batch
    /// `[min_col0, max_col0, null_count_col0, .., page_idx]`.
    pub fn try_from_serialized(lookup_batch: &RecordBatch, column_names: &Vec<String>) -> (r:
        Result<CompoundBTreeLookup, Error>)
        requires
            readable_lookup(lookup_batch@, column_names@.len()),
        ensures
            match lookup_defect(lookup_batch@, crate::text::texts(column_names@)) {
                Some(e) => crate::error::fails_with(r, e),
                None => r matches Ok(l) && l@ == parsed_lookup(
                    lookup_batch@,
                    column_names@.len(),
                ) && l@.complete(),
            },
    {
        let n = column_names.len();
        let rows = lookup_batch.num_rows();
        let ghost b = lookup_batch@;
        let width = lookup_batch.num_columns();
        let mut data_types: Vec<DataType> = Vec::new();
        for c in 0..n
            invariant
                n == column_names@.len(),
                b == lookup_batch@,
                readable_lookup(b, n as nat),
                width == b.columns.len(),
                data_types@.len() == c,
                forall|j: int|
                    0 <= j < c ==> (#[trigger] data_types@[j])@
                        == b.schema.fields[3 * j].data_type,
        {
            let column = lookup_batch.column(c * 3);
            data_types.push(column.data_type().clone());
        }
        assert(crate::datatype::types(data_types@) =~= parsed_lookup(b, n as nat).data_types);
        if rows == 0 {
            let empty: Vec<CompoundPageStats> = Vec::new();
            assert(page_stats_views(empty@) =~= parsed_lookup(b, n as nat).page_stats);
            return Ok(CompoundBTreeLookup::new(empty, data_types));
        }
        let page_idx = lookup_batch.column(width - 1);
        match page_idx.data_type() {
            DataType::UInt32 => {},
            _ => {
                return Err(ErrorOf::Index { message: "page_idx column is not UInt32".to_owned() });
            },
        }
        let mut page_stats: Vec<CompoundPageStats> = Vec::new();
        let ghost bad = has_bad_counts(b);
        let ghost names = crate::text::texts(column_names@);
        for row in 0..rows
            invariant
                n == column_names@.len(),
                names == crate::text::texts(column_names@),
                b == lookup_batch@,
                rows == b.rows,
                readable_lookup(b, n as nat),
                width == b.columns.len(),
                page_idx@ == b.columns.last(),
                page_idx@.data_type is UInt32,
                bad == has_bad_counts(b),
                row > 0 ==> (forall|j: int| 0 <= j < n ==> !(#[trigger] bad(j))),
                page_stats@.len() == row,
                forall|p: int|
                    0 <= p < row ==> (#[trigger] page_stats@[p])@ == parsed_page(b, n as nat, p),
        {
            let mut mins: Vec<ScalarValue> = Vec::new();
            let mut maxs: Vec<ScalarValue> = Vec::new();
            let mut null_counts: Vec<u32> = Vec::new();
            for c in 0..n
                invariant
                    n == column_names@.len(),
                    names == crate::text::texts(column_names@),
                    b == lookup_batch@,
                    rows == b.rows,
                    row < rows,
                    readable_lookup(b, n as nat),
                    width == b.columns.len(),
                    page_idx@ == b.columns.last(),
                    page_idx@.data_type is UInt32,
                    bad == has_bad_counts(b),
                    forall|j: int| 0 <= j < c ==> !(#[trigger] bad(j)),
                    mins@.len() == c,
                    maxs@.len() == c,
                    null_counts@.len() == c,
                    forall|j: int|
                        0 <= j < c ==> (#[trigger] mins@[j])@ == b.columns[3
                            * j].values[row as int],
                    forall|j: int|
                        0 <= j < c ==> (#[trigger] maxs@[j])@ == b.columns[3 * j
                            + 1].values[row as int],
                    forall|j: int|
                        0 <= j < c ==> #[trigger] null_counts@[j] == crate::batch::u32_of(
                            b.columns[count_column(j)].values[row as int],
                        ),
            {
                let base = c * 3;
                mins.push(lookup_batch.column(base).value(row).clone());
                maxs.push(lookup_batch.column(base + 1).value(row).clone());
                let counts = lookup_batch.column(base + 2);
                assert(b.columns[count_column(c as int)] == counts@);
                match counts.data_type() {
                    DataType::UInt32 => {},
                    _ => {
                        proof {
                            assert(bad(c as int));
                            crate::first::first_where_found(n as nat, bad, c as int);
                        }
                        return Err(
                            ErrorOf::Index {
                                message: concat3(
                                    "null_count column for ",
                                    column_names[c].as_str(),
                                    " is not UInt32",
                                ),
                            },
                        );
                    },
                }
                null_counts.push(counts.u32_value(row));
            }
            let page_number = page_idx.u32_value(row);
            let stats = CompoundPageStats { mins, maxs, null_counts, page_number };
            assert(stats@ =~= parsed_page(b, n as nat, row as int));
            page_stats.push(stats);
        }
        proof {
            crate::first::first_where_absent(n as nat, bad);
            assert(page_stats_views(page_stats@) =~= parsed_lookup(b, n as nat).page_stats);
        }
        Ok(CompoundBTreeLookup::new(page_stats, data_types))
    }

    /// The number of pages.
    pub fn num_pages(&self) -> (r: usize)
        ensures
            r == self@.page_stats.len(),
    {
        self.page_stats.len()
    }

    /// The types of the indexed columns.
    pub fn data_types(&self) -> (r: &Vec<DataType>)
        ensures
            crate::datatype::types(r@) == self@.data_types,
    {
        &self.data_types
    }

    /// The pages that may contain rows matching the query.
    pub fn find_candidate_pages(&self, query: &CompoundSargableQuery) -> (r: Vec<u32>)
        requires
            self@.complete(),
        ensures
            r@ == candidates(self@.page_stats, self@.num_columns(), query@),
    {
        let mut out: Vec<u32> = Vec::new();
        let ghost pages = self@.page_stats;
        for i in 0..self.page_stats.len()
            invariant
                self@.complete(),
                pages == self@.page_stats,
                pages == page_stats_views(self.page_stats@),
                out@ == candidates(pages.take(i as int), self@.num_columns(), query@),
        {
            assert(pages.take(i + 1).drop_last() =~= pages.take(i as int));
            assert(pages.take(i + 1).last() == self.page_stats@[i as int]@);
            assert(pages[i as int].complete(self@.num_columns()));
            if !self.can_prune_page(&self.page_stats[i], query) {
                out.push(self.page_stats[i].page_number);
            }
        }
        assert(pages.take(pages.len() as int) =~= pages);
        out
    }

    /// Whether a page is known to have no row that matches the query.
    pub fn can_prune_page(&self, stats: &CompoundPageStats, query: &CompoundSargableQuery) -> (r:
        bool)
        requires
            stats@.complete(self@.num_columns()),
        ensures
            r == prunes_page(stats@, self@.num_columns(), query@),
    {
        proof {
            use_type_invariant(self);
        }
        match query {
            CompoundSargableQuery::FullKeyLookup(_) => false,
            CompoundSargableQuery::PrefixLookup { prefix, range } => {
                let ghost n = self@.num_columns();
                let ghost ps = crate::scalar::scalars(prefix@);
                for i in 0..prefix.len()
                    invariant
                        stats@.complete(self@.num_columns()),
                        n == self@.num_columns(),
                        ps == crate::scalar::scalars(prefix@),
                        query@ == (QueryView::PrefixLookup {
                            prefix: ps,
                            range: crate::compound::range_view(*range),
                        }),
                        forall|j: int|
                            0 <= j < i ==> !#[trigger] prunes_equality(stats@, n, j, ps[j]),
                {
                    if self.can_prune_by_equality(stats, i, &prefix[i]) {
                        assert(exists|j: int|
                            0 <= j < ps.len() && #[trigger] prunes_equality(stats@, n, j, ps[j]))
                            by {
                            assert(prunes_equality(stats@, n, i as int, ps[i as int]));
                        }
                        assert(query@ is PrefixLookup);
                        assert(query@->prefix == ps);
                        assert(prunes_page(stats@, n, query@));
                        return true;
                    }
                }
                match range {
                    Some((lower, upper)) => {
                        prefix.len() < self.num_columns && self.can_prune_by_range(
                            stats,
                            prefix.len(),
                            lower,
                            upper,
                        )
                    },
                    None => false,
                }
            },
            CompoundSargableQuery::Range { .. } => false,
        }
    }

    /// Whether a page is known to have no row with `value` in a column.
    pub fn can_prune_by_equality(
        &self,
        stats: &CompoundPageStats,
        col_idx: usize,
        value: &ScalarValue,
    ) -> (r: bool)
        requires
            stats@.complete(self@.num_columns()),
        ensures
            r == prunes_equality(stats@, self@.num_columns(), col_idx as int, value@),
    {
        proof {
            use_type_invariant(self);
        }
        if col_idx >= self.num_columns {
            return false;
        }
        if value.is_null() {
            return stats.null_counts[col_idx] == 0;
        }
        let min = &stats.mins[col_idx];
        let max = &stats.maxs[col_idx];
        assert(stats@.mins[col_idx as int] == min@);
        assert(stats@.maxs[col_idx as int] == max@);
        if min.is_null() && max.is_null() {
            return true;
        }
        if !min.is_null() {
            if let Some(Order::Less) = value.order(min) {
                return true;
            }
        }
        if !max.is_null() {
            if let Some(Order::Greater) = value.order(max) {
                return true;
            }
        }
        false
    }

    /// Whether a page is known to have no row whose column lies in a range.
    pub fn can_prune_by_range(
        &self,
        stats: &CompoundPageStats,
        col_idx: usize,
        lower: &Bound<ScalarValue>,
        upper: &Bound<ScalarValue>,
    ) -> (r: bool)
        requires
            stats@.complete(self@.num_columns()),
        ensures
            r == prunes_range(
                stats@,
                self@.num_columns(),
                col_idx as int,
                crate::compound::bound_view(*lower),
                crate::compound::bound_view(*upper),
            ),
    {
        proof {
            use_type_invariant(self);
        }
        if col_idx >= self.num_columns {
            return false;
        }
        let min = &stats.mins[col_idx];
        let max = &stats.maxs[col_idx];
        assert(stats@.mins[col_idx as int] == min@);
        assert(stats@.maxs[col_idx as int] == max@);
        if min.is_null() && max.is_null() {
            return true;
        }
        if !min.is_null() {
            let below = match upper {
                Bound::Included(v) => match v.order(min) {
                    Some(Order::Less) => true,
                    _ => false,
                },
                Bound::Excluded(v) => match v.order(min) {
                    Some(Order::Less) | Some(Order::Equal) => true,
                    _ => false,
                },
                Bound::Unbounded => false,
            };
            if below {
                return true;
            }
        }
        if !max.is_null() {
            let above = match lower {
                Bound::Included(v) => match v.order(max) {
                    Some(Order::Greater) => true,
                    _ => false,
                },
                Bound::Excluded(v) => match v.order(max) {
                    Some(Order::Greater) | Some(Order::Equal) => true,
                    _ => false,
                },
                Bound::Unbounded => false,
            };
            if above {
                return true;
            }
        }
        false
    }

    /// The pages that may contain nulls in a column.
    pub fn pages_with_nulls(&self, col_idx: usize) -> (r: Vec<u32>)
        ensures
            r@ == null_pages(self@.page_stats, col_idx as int),
    {
        let mut out: Vec<u32> = Vec::new();
        let ghost pages = self@.page_stats;
        for i in 0..self.page_stats.len()
            invariant
                pages == page_stats_views(self.page_stats@),
                out@ == null_pages(pages.take(i as int), col_idx as int),
        {
            assert(pages.take(i + 1).drop_last() =~= pages.take(i as int));
            assert(pages.take(i + 1).last() == self.page_stats@[i as int]@);
            let counts = &self.page_stats[i].null_counts;
            if col_idx < counts.len() && counts[col_idx] > 0 {
                out.push(self.page_stats[i].page_number);
            }
        }
        assert(pages.take(pages.len() as int) =~= pages);
        out
    }
}

/// What statistics claim of a column: a zero count means no nulls, null bounds
/// mean nothing but nulls, and no value lies below the smallest or above the
/// largest.
pub open spec fn stats_cover(
    values: Seq<ScalarView>,
    min: ScalarView,
    max: ScalarView,
    null_count: u32,
) -> bool {
    &&& null_count == 0 ==> (forall|i: int|
        0 <= i < values.len() ==> !(#[trigger] values[i]).is_null())
    &&& min.is_null() && max.is_null() ==> (forall|i: int|
        0 <= i < values.len() ==> (#[trigger] values[i]).is_null())
    &&& !min.is_null() ==> (forall|i: int|
        0 <= i < values.len() && !(#[trigger] values[i]).is_null()
            ==> crate::scalar::scalar_order(values[i], min) != Some(Order::Less))
    &&& !max.is_null() ==> (forall|i: int|
        0 <= i < values.len() && !(#[trigger] values[i]).is_null()
            ==> crate::scalar::scalar_order(values[i], max) != Some(Order::Greater))
}

/// Pruning by equality loses nothing: where the statistics cover the column,
/// no value of a pruned page is the one looked for.
pub proof fn equality_pruning_sound(
    stats: PageStatsView,
    n: nat,
    col: int,
    value: ScalarView,
    values: Seq<ScalarView>,
    i: int,
)
    requires
        0 <= col < n,
        stats_cover(values, stats.mins[col], stats.maxs[col], stats.null_counts[col]),
        prunes_equality(stats, n, col, value),
        0 <= i < values.len(),
    ensures
        !crate::scalar::is_wanted(values[i], value),
{
}

/// Pruning by range loses nothing: where the statistics cover the column, no
/// value of a pruned page lies in the range.
pub proof fn range_pruning_sound(
    stats: PageStatsView,
    n: nat,
    col: int,
    lower: Bound<ScalarView>,
    upper: Bound<ScalarView>,
    values: Seq<ScalarView>,
    i: int,
)
    requires
        0 <= col < n,
        stats_cover(values, stats.mins[col], stats.maxs[col], stats.null_counts[col]),
        prunes_range(stats, n, col, lower, upper),
        0 <= i < values.len(),
    ensures
        !crate::compound::in_range(values[i], lower, upper),
{
    let v = values[i];
    let min = stats.mins[col];
    let max = stats.maxs[col];
    if crate::compound::in_range(v, lower, upper) {
        if !min.is_null() && ends_below(upper, min) {
            match upper {
                Bound::Included(b) => crate::scalar::scalar_order_transitive(v, b, min),
                Bound::Excluded(b) => crate::scalar::scalar_order_transitive(v, b, min),
                Bound::Unbounded => {},
            }
        } else if !max.is_null() && starts_above(lower, max) {
            match lower {
                Bound::Included(b) => {
                    crate::scalar::scalar_order_flip(v, b);
                    crate::scalar::scalar_order_flip(b, max);
                    crate::scalar::scalar_order_transitive(max, b, v);
                    crate::scalar::scalar_order_flip(max, v);
                },
                Bound::Excluded(b) => {
                    crate::scalar::scalar_order_flip(v, b);
                    crate::scalar::scalar_order_flip(b, max);
                    crate::scalar::scalar_order_transitive(max, b, v);
                    crate::scalar::scalar_order_flip(max, v);
                },
                Bound::Unbounded => {},
            }
        }
    }
}

/// Every page that is not pruned is among the candidates.
pub proof fn unpruned_is_candidate(pages: Seq<PageStatsView>, n: nat, query: QueryView, p: int)
    requires
        0 <= p < pages.len(),
        !prunes_page(pages[p], n, query),
    ensures
        candidates(pages, n, query).contains(pages[p].page_number),
    decreases pages.len(),
{
    let rest = candidates(pages.drop_last(), n, query);
    if p == pages.len() - 1 {
        assert(candidates(pages, n, query).last() == pages[p].page_number);
    } else {
        unpruned_is_candidate(pages.drop_last(), n, query, p);
        let k = choose|k: int| 0 <= k < rest.len() && rest[k] == pages[p].page_number;
        assert(candidates(pages, n, query)[k] == pages[p].page_number);
    }
}

/// Pruning by equality is as sharp as statistics allow: where a page is not
/// pruned, its statistics are those of a column that holds the value, so nothing
/// in them rules the value out.
pub proof fn equality_pruning_sharp(stats: PageStatsView, n: nat, col: int, value: ScalarView)
    requires
        0 <= col < n,
        !prunes_equality(stats, n, col, value),
    ensures
        stats_cover(
            seq![value],
            stats.mins[col],
            stats.maxs[col],
            stats.null_counts[col],
        ),
{
}

/// When a page is pruned for a value: for null where it has no nulls; for another
/// value where it has nothing else than nulls, or where the value comes before
/// its smallest or after its largest.
pub proof fn equality_pruning_by_bounds(stats: PageStatsView, n: nat, col: int, value: ScalarView)
    requires
        0 <= col < n,
    ensures
        value.key is None ==> (prunes_equality(stats, n, col, value) <==> stats.null_counts[col]
            == 0),
        value.key is Some && stats.mins[col].key is Some && stats.maxs[col].key is Some ==> (
        prunes_equality(stats, n, col, value) <==> crate::scalar::scalar_order(
            stats.mins[col],
            value,
        ) == Some(Order::Greater) || crate::scalar::scalar_order(stats.maxs[col], value) == Some(
            Order::Less,
        )),
        value.key is Some && stats.mins[col].key is None && stats.maxs[col].key is None
            ==> prunes_equality(stats, n, col, value),
        value.key is Some && stats.mins[col].key is None && stats.maxs[col].key is Some ==> (
        prunes_equality(stats, n, col, value) <==> crate::scalar::scalar_order(
            stats.maxs[col],
            value,
        ) == Some(Order::Less)),
        !prunes_equality(stats, n, n as int, value),
{
    crate::scalar::scalar_order_flip(value, stats.mins[col]);
    crate::scalar::scalar_order_flip(value, stats.maxs[col]);
    crate::scalar::scalar_order_flip(stats.mins[col], value);
    crate::scalar::scalar_order_flip(stats.maxs[col], value);
}

/// When a page is pruned for a range on values of its column's type: where it has
/// nothing but nulls, where its smallest value is already past the upper end, or
/// where its largest one has not reached the lower end.
pub proof fn range_pruning_by_bounds(
    stats: PageStatsView,
    n: nat,
    col: int,
    lower: Bound<ScalarView>,
    upper: Bound<ScalarView>,
)
    requires
        0 <= col < n,
        comparable_end(lower, stats.maxs[col]),
        comparable_end(upper, stats.mins[col]),
    ensures
        prunes_range(stats, n, col, lower, upper) <==> {
            ||| stats.mins[col].key is None && stats.maxs[col].key is None
            ||| stats.mins[col].key is Some && !crate::compound::in_range(
                stats.mins[col],
                Bound::Unbounded,
                upper,
            )
            ||| stats.maxs[col].key is Some && !crate::compound::in_range(
                stats.maxs[col],
                lower,
                Bound::Unbounded,
            )
        },
        !prunes_range(stats, n, n as int, lower, upper),
{
    match upper {
        Bound::Included(v) | Bound::Excluded(v) => {
            crate::scalar::scalar_order_flip(v, stats.mins[col]);
            crate::scalar::scalar_order_flip(stats.mins[col], v);
        },
        Bound::Unbounded => {},
    }
    match lower {
        Bound::Included(v) | Bound::Excluded(v) => {
            crate::scalar::scalar_order_flip(v, stats.maxs[col]);
            crate::scalar::scalar_order_flip(stats.maxs[col], v);
        },
        Bound::Unbounded => {},
    }
}

/// An end of a range compares with a value.
pub open spec fn comparable_end(end: Bound<ScalarView>, v: ScalarView) -> bool {
    match end {
        Bound::Included(x) => crate::scalar::scalar_order(x, v) is Some,
        Bound::Excluded(x) => crate::scalar::scalar_order(x, v) is Some,
        Bound::Unbounded => true,
    }
}

/// A value of the prefix prunes the page.
proof fn value_prunes(
    stats: PageStatsView,
    n: nat,
    prefix: Seq<ScalarView>,
    range: Option<(Bound<ScalarView>, Bound<ScalarView>)>,
    i: int,
)
    requires
        0 <= i < prefix.len(),
        prunes_equality(stats, n, i, prefix[i]),
    ensures
        prunes_page(stats, n, (QueryView::PrefixLookup { prefix, range })),
{
    let query = QueryView::PrefixLookup { prefix, range };
    match query {
        QueryView::PrefixLookup { prefix: values, range: _ } => {
            assert(values == prefix);
            assert(prunes_equality(stats, n, i, values[i]));
            assert(prunes_page(stats, n, query));
        },
        _ => {},
    }
}

/// A page is pruned for a prefix exactly when it is for one of its values, in
/// that value's column, or for the range, in the column after them. Full keys
/// and key ranges prune no page.
pub proof fn pages_are_pruned_column_by_column(
    stats: PageStatsView,
    n: nat,
    prefix: Seq<ScalarView>,
    v: ScalarView,
    range: Option<(Bound<ScalarView>, Bound<ScalarView>)>,
    lower: Bound<ScalarView>,
    upper: Bound<ScalarView>,
    key: Seq<u8>,
    a: Bound<Seq<u8>>,
    b: Bound<Seq<u8>>,
)
    ensures
        !prunes_page(stats, n, QueryView::PrefixLookup { prefix: Seq::empty(), range: None }),
        prunes_page(
            stats,
            n,
            QueryView::PrefixLookup { prefix: prefix.push(v), range: None },
        ) <==> prunes_page(stats, n, QueryView::PrefixLookup { prefix, range: None })
            || prunes_equality(stats, n, prefix.len() as int, v),
        prunes_page(
            stats,
            n,
            QueryView::PrefixLookup { prefix, range: Some((lower, upper)) },
        ) <==> prunes_page(stats, n, QueryView::PrefixLookup { prefix, range: None })
            || prunes_range(stats, n, prefix.len() as int, lower, upper),
        !prunes_page(stats, n, QueryView::FullKeyLookup(key)),
        !prunes_page(stats, n, QueryView::Range { lower: a, upper: b }),
{
    let more = prefix.push(v);
    let plain = QueryView::PrefixLookup { prefix, range: None };
    let longer = QueryView::PrefixLookup { prefix: more, range: None };
    let ranged = QueryView::PrefixLookup { prefix, range: Some((lower, upper)) };
    if prunes_page(stats, n, plain) {
        let i = choose|i: int|
            0 <= i < prefix.len() && #[trigger] prunes_equality(stats, n, i, prefix[i]);
        value_prunes(stats, n, more, None, i);
        value_prunes(stats, n, prefix, Some((lower, upper)), i);
    }
    if prunes_equality(stats, n, prefix.len() as int, v) {
        value_prunes(stats, n, more, None, prefix.len() as int);
    }
    if prunes_page(stats, n, longer) {
        let i = choose|i: int|
            0 <= i < more.len() && #[trigger] prunes_equality(stats, n, i, more[i]);
        if i < prefix.len() {
            value_prunes(stats, n, prefix, None, i);
        }
    }
    if prunes_page(stats, n, ranged) && !prunes_range(
        stats,
        n,
        prefix.len() as int,
        lower,
        upper,
    ) {
        let i = choose|i: int|
            0 <= i < prefix.len() && #[trigger] prunes_equality(stats, n, i, prefix[i]);
        value_prunes(stats, n, prefix, None, i);
    }
}

/// The candidates of pages are those of the first ones and then those of the
/// others; a page by itself is a candidate under its number unless it is pruned.
pub proof fn candidates_add_up(
    a: Seq<PageStatsView>,
    b: Seq<PageStatsView>,
    page: PageStatsView,
    n: nat,
    query: QueryView,
)
    ensures
        candidates(a + b, n, query) == candidates(a, n, query) + candidates(b, n, query),
        candidates(seq![page], n, query) == (if prunes_page(page, n, query) {
            Seq::empty()
        } else {
            seq![page.page_number]
        }),
    decreases b.len(),
{
    reveal_with_fuel(candidates, 2);
    assert(seq![page].drop_last() =~= Seq::<PageStatsView>::empty());
    assert(seq![page].last() == page);
    assert(Seq::<u32>::empty().push(page.page_number) =~= seq![page.page_number]);
    let x = candidates(a, n, query);
    if b.len() == 0 {
        assert(a + b =~= a);
        assert(x + Seq::<u32>::empty() =~= x);
    } else {
        candidates_add_up(a, b.drop_last(), page, n, query);
        assert((a + b).drop_last() =~= a + b.drop_last());
        assert((a + b).last() == b.last());
        assert(candidates(a + b, n, query) =~= x + candidates(b, n, query));
    }
}

/// So are the pages with nulls in a column: a page by itself is one, under its
/// number, where its count for the column is not zero.
pub proof fn null_pages_add_up(
    a: Seq<PageStatsView>,
    b: Seq<PageStatsView>,
    page: PageStatsView,
    col: int,
)
    requires
        0 <= col,
    ensures
        null_pages(a + b, col) == null_pages(a, col) + null_pages(b, col),
        null_pages(seq![page], col) == (if col < page.null_counts.len() && page.null_counts[col]
            != 0 {
            seq![page.page_number]
        } else {
            Seq::empty()
        }),
    decreases b.len(),
{
    reveal_with_fuel(null_pages, 2);
    assert(seq![page].drop_last() =~= Seq::<PageStatsView>::empty());
    assert(seq![page].last() == page);
    assert(Seq::<u32>::empty().push(page.page_number) =~= seq![page.page_number]);
    let x = null_pages(a, col);
    if b.len() == 0 {
        assert(a + b =~= a);
        assert(x + Seq::<u32>::empty() =~= x);
    } else {
        null_pages_add_up(a, b.drop_last(), page, col);
        assert((a + b).drop_last() =~= a + b.drop_last());
        assert((a + b).last() == b.last());
        assert(null_pages(a + b, col) =~= x + null_pages(b, col));
    }
}

/// Reading a lookup batch gives each page what its row holds: of every indexed
/// column the minimum, the maximum and the null count, and the page number.
pub proof fn lookup_rows_are_read(batch: BatchView, n: nat, row: int, c: int)
    requires
        readable_lookup(batch, n),
        0 <= row < batch.rows,
        0 <= c < n,
    ensures
        ({
            let l = parsed_lookup(batch, n);
            let page = l.page_stats[row];
            &&& l.page_stats.len() == batch.rows
            &&& l.data_types.len() == n
            &&& l.data_types[c] == batch.columns[3 * c].data_type
            &&& page.mins.len() == n
            &&& page.maxs.len() == n
            &&& page.null_counts.len() == n
            &&& page.mins[c] == batch.columns[3 * c].values[row]
            &&& page.maxs[c] == batch.columns[3 * c + 1].values[row]
            &&& forall|k: u32|
                batch.columns[3 * c + 2].values[row] == #[trigger] ScalarValue::UInt32(Some(k))@
                    ==> page.null_counts[c] == k
            &&& forall|k: u32|
                batch.columns.last().values[row] == #[trigger] ScalarValue::UInt32(Some(k))@
                    ==> page.page_number == k
        }),
{
    assert(batch.columns[3 * c].data_type == batch.schema.fields[3 * c].data_type);
}

/// A lookup batch can be read exactly when it has no rows, or when its page
/// numbers and all null counts are 32-bit numbers.
pub proof fn lookup_needs_numbers(batch: BatchView, names: Seq<Seq<char>>)
    ensures
        lookup_defect(batch, names) is None <==> batch.rows == 0 || (
        batch.columns.last().data_type is UInt32 && forall|c: int|
            0 <= c < names.len() ==> (#[trigger] batch.columns[3 * c + 2]).data_type is UInt32),
        batch.rows > 0 && !(batch.columns.last().data_type is UInt32) ==> lookup_defect(
            batch,
            names,
        ) == Some(ErrorView::Index { message: "page_idx column is not UInt32"@ }),
{
    let bad = has_bad_counts(batch);
    crate::first::first_where_spec(names.len(), bad);
    if lookup_defect(batch, names) is None && batch.rows > 0 {
        assert forall|c: int| 0 <= c < names.len() implies (
        #[trigger] batch.columns[3 * c + 2]).data_type is UInt32 by {
            assert(!bad(c));
        }
    }
    if let Some(c) = crate::first::first_where(names.len(), bad) {
        assert(bad(c));
        assert(!(batch.columns[3 * c + 2].data_type is UInt32));
    }
}

/// Statistics in a contract are the statistics themselves, page by page and
/// column by column.
pub proof fn page_statistics_show_themselves(stats: Seq<CompoundPageStats>, p: int, c: int)
    requires
        0 <= p < stats.len(),
        0 <= c < stats[p].mins@.len(),
        stats[p].mins@.len() == stats[p].maxs@.len(),
        stats[p].mins@.len() == stats[p].null_counts@.len(),
    ensures
        ({
            let view = page_stats_views(stats);
            &&& view.len() == stats.len()
            &&& view[p].page_number == stats[p].page_number
            &&& view[p].mins.len() == stats[p].mins@.len()
            &&& view[p].maxs.len() == stats[p].mins@.len()
            &&& view[p].null_counts.len() == stats[p].mins@.len()
            &&& view[p].mins[c] == stats[p].mins@[c]@
            &&& view[p].maxs[c] == stats[p].maxs@[c]@
            &&& view[p].null_counts[c] == stats[p].null_counts@[c]
        }),
{
}

/// A lookup batch whose null counts are no 32-bit numbers is refused by the first
/// indexed column for which they are not.
pub proof fn bad_counts_are_named(batch: BatchView, names: Seq<Seq<char>>, c: int)
    requires
        batch.rows > 0,
        batch.columns.last().data_type is UInt32,
        0 <= c < names.len(),
        !(batch.columns[3 * c + 2].data_type is UInt32),
        forall|d: int|
            0 <= d < c ==> (#[trigger] batch.columns[3 * d + 2]).data_type is UInt32,
    ensures
        lookup_defect(batch, names) == Some(
            ErrorView::Index { message: "null_count column for "@ + names[c] + " is not UInt32"@ },
        ),
{
    let bad = has_bad_counts(batch);
    assert(bad(c));
    assert forall|d: int| 0 <= d < c implies !(#[trigger] bad(d)) by {
        assert(batch.columns[3 * d + 2].data_type is UInt32);
    }
    crate::first::first_where_found(names.len(), bad, c);
}

/// The candidates for a query are the numbers of the pages that are not pruned,
/// all of them and no others. Every page whose count for a column is not zero is
/// among the pages with nulls in it.
pub proof fn found_pages_are_those_not_pruned(
    lookup: &CompoundBTreeLookup,
    query: &CompoundSargableQuery,
    col_idx: usize,
    found: Vec<u32>,
    with_nulls: Vec<u32>,
    i: int,
    number: u32,
)
    requires
        call_ensures(CompoundBTreeLookup::find_candidate_pages, (lookup, query), found),
        call_ensures(CompoundBTreeLookup::pages_with_nulls, (lookup, col_idx), with_nulls),
        0 <= i < lookup@.page_stats.len(),
    ensures
        ({
            let page = lookup@.page_stats[i];
            &&& !prunes_page(page, lookup@.num_columns(), query@) ==> found@.contains(
                page.page_number,
            )
            &&& col_idx < page.null_counts.len() && page.null_counts[col_idx as int] != 0
                ==> with_nulls@.contains(page.page_number)
        }),
        found@.contains(number) ==> exists|j: int|
            0 <= j < lookup@.page_stats.len() && (#[trigger] lookup@.page_stats[j]).page_number
                == number && !prunes_page(lookup@.page_stats[j], lookup@.num_columns(), query@),
{
    let pages = lookup@.page_stats;
    let page = pages[i];
    candidates_are_unpruned(pages, lookup@.num_columns(), query@, number);
    if !prunes_page(page, lookup@.num_columns(), query@) {
        unpruned_is_candidate(pages, lookup@.num_columns(), query@, i);
    }
    if col_idx < page.null_counts.len() && page.null_counts[col_idx as int] != 0 {
        null_pages_are_those_with_nulls(pages, col_idx as int, i);
    }
}

/// Every candidate is a page that is not pruned.
proof fn candidates_are_unpruned(
    pages: Seq<PageStatsView>,
    n: nat,
    query: QueryView,
    number: u32,
)
    ensures
        candidates(pages, n, query).contains(number) ==> exists|j: int|
            0 <= j < pages.len() && (#[trigger] pages[j]).page_number == number && !prunes_page(
                pages[j],
                n,
                query,
            ),
    decreases pages.len(),
{
    if pages.len() > 0 {
        let before = pages.drop_last();
        let rest = candidates(before, n, query);
        let all = candidates(pages, n, query);
        candidates_are_unpruned(before, n, query, number);
        if all.contains(number) {
            let k = choose|k: int| 0 <= k < all.len() && all[k] == number;
            if k < rest.len() {
                assert(rest[k] == number);
                let j = choose|j: int|
                    0 <= j < before.len() && (#[trigger] before[j]).page_number == number
                        && !prunes_page(before[j], n, query);
                assert(pages[j].page_number == number);
            } else {
                assert(pages[pages.len() - 1].page_number == number);
            }
        }
    }
}

/// A page with nulls in the column is among the pages with nulls.
proof fn null_pages_are_those_with_nulls(pages: Seq<PageStatsView>, col: int, i: int)
    requires
        0 <= col,
        0 <= i < pages.len(),
        col < pages[i].null_counts.len(),
        pages[i].null_counts[col] != 0,
    ensures
        null_pages(pages, col).contains(pages[i].page_number),
    decreases pages.len(),
{
    let before = pages.drop_last();
    let rest = null_pages(before, col);
    let all = null_pages(pages, col);
    if i < before.len() {
        null_pages_are_those_with_nulls(before, col, i);
        let k = choose|k: int| 0 <= k < rest.len() && rest[k] == pages[i].page_number;
        assert(all[k] == pages[i].page_number);
    } else {
        assert(all[rest.len() as int] == pages[i].page_number);
    }
}

} // verus!
