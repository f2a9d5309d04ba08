//! Per-page statistics and their serialized form.
use vstd::prelude::*;

use crate::batch::{BatchView, Column, ColumnView, RecordBatch};
use crate::datatype::{DataType, DataTypeOf, DataTypeView, Field, FieldView, Schema, SchemaView};
use crate::error::{Error, ErrorOf, ErrorView};
use crate::lookup::{LookupView, PageStatsView};
use crate::scalar::{Order, ScalarValue, ScalarView};
use crate::text::{concat2, concat3};

verus! {

/// Statistics for a single column within a page.
#[derive(Debug)]
pub struct ColumnStats {
    /// Minimum value, null being below any other: the first row's value where
    /// the column is sorted.
    pub min: ScalarValue,
    /// Maximum value: the last row's value where the column is sorted.
    pub max: ScalarValue,
    /// The number of null values.
    pub null_count: u32,
}

pub struct ColumnStatsView {
    pub min: ScalarView,
    pub max: ScalarView,
    pub null_count: u32,
}

impl View for ColumnStats {
    type V = ColumnStatsView;

    open spec fn view(&self) -> ColumnStatsView {
        ColumnStatsView { min: self.min@, max: self.max@, null_count: self.null_count }
    }
}

/// The views of a vector of column statistics.
pub open spec fn column_stats_views(v: Seq<ColumnStats>) -> Seq<ColumnStatsView> {
    Seq::new(v.len(), |i: int| v[i]@)
}

/// Statistics for all columns of a page.
#[derive(Debug)]
pub struct CompoundBatchStats {
    pub column_stats: Vec<ColumnStats>,
    pub page_number: u32,
}

#[verifier::ext_equal]
pub struct BatchStatsView {
    pub column_stats: Seq<ColumnStatsView>,
    pub page_number: u32,
}

impl View for CompoundBatchStats {
    type V = BatchStatsView;

    open spec fn view(&self) -> BatchStatsView {
        BatchStatsView {
            column_stats: column_stats_views(self.column_stats@),
            page_number: self.page_number,
        }
    }
}

/// The views of a vector of page statistics.
pub open spec fn batch_stats_views(v: Seq<CompoundBatchStats>) -> Seq<BatchStatsView> {
    Seq::new(v.len(), |i: int| v[i]@)
}

/// The smallest of the values, null being below any other.
pub open spec fn smallest(values: Seq<ScalarView>) -> ScalarView
    decreases values.len(),
{
    if values.len() <= 1 {
        values[0]
    } else {
        let rest = smallest(values.drop_last());
        if crate::scalar::scalar_order(values.last(), rest) == Some(Order::Less) {
            values.last()
        } else {
            rest
        }
    }
}

/// The largest of the values, null being below any other.
pub open spec fn largest(values: Seq<ScalarView>) -> ScalarView
    decreases values.len(),
{
    if values.len() <= 1 {
        values[0]
    } else {
        let rest = largest(values.drop_last());
        if crate::scalar::scalar_order(values.last(), rest) == Some(Order::Greater) {
            values.last()
        } else {
            rest
        }
    }
}

/// In a column with at least one row the smallest and the largest value are
/// among the values, and every value lies between them.
pub proof fn extremes_bound(c: ColumnView)
    requires
        c.typed(),
        c.values.len() > 0,
    ensures
        c.values.contains(smallest(c.values)),
        c.values.contains(largest(c.values)),
        smallest(c.values).data_type == c.data_type,
        largest(c.values).data_type == c.data_type,
        forall|i: int|
            0 <= i < c.values.len() ==> crate::scalar::scalar_le(
                smallest(c.values),
                #[trigger] c.values[i],
            ) && crate::scalar::scalar_le(c.values[i], largest(c.values)),
    decreases c.values.len(),
{
    let values = c.values;
    let last = values.last();
    assert(values[values.len() - 1] == last);
    crate::scalar::scalar_order_equal(last, last);
    if values.len() == 1 {
        assert(values[0] == last);
    } else {
        let before = ColumnView { data_type: c.data_type, values: values.drop_last() };
        assert forall|i: int| 0 <= i < before.values.len() implies (
        #[trigger] before.values[i]).data_type == c.data_type by {
            assert(before.values[i] == values[i]);
        }
        extremes_bound(before);
        let low = smallest(before.values);
        let high = largest(before.values);
        let k = choose|k: int| 0 <= k < before.values.len() && before.values[k] == low;
        assert(values[k] == low);
        let l = choose|l: int| 0 <= l < before.values.len() && before.values[l] == high;
        assert(values[l] == high);
        crate::scalar::scalar_order_flip(last, low);
        crate::scalar::scalar_order_flip(last, high);
        assert forall|i: int| 0 <= i < values.len() implies crate::scalar::scalar_le(
            smallest(values),
            #[trigger] values[i],
        ) && crate::scalar::scalar_le(values[i], largest(values)) by {
            if i < values.len() - 1 {
                assert(before.values[i] == values[i]);
                if smallest(values) == last {
                    if crate::scalar::scalar_order(last, low) == Some(Order::Less) {
                        crate::scalar::scalar_order_transitive(last, low, values[i]);
                    }
                }
                if largest(values) == last {
                    if crate::scalar::scalar_order(last, high) == Some(Order::Greater) {
                        crate::scalar::scalar_order_transitive(values[i], high, last);
                    }
                }
            }
        }
    }
}

/// In a sorted column the smallest value is the first and the largest the last.
pub proof fn sorted_extremes(c: ColumnView)
    requires
        c.typed(),
        c.values.len() > 0,
        forall|i: int, j: int|
            0 <= i <= j < c.values.len() ==> crate::scalar::scalar_le(
                #[trigger] c.values[i],
                #[trigger] c.values[j],
            ),
    ensures
        smallest(c.values) == c.values[0],
        largest(c.values) == c.values.last(),
{
    extremes_bound(c);
    let first = c.values[0];
    let last = c.values[c.values.len() - 1];
    let low = smallest(c.values);
    let high = largest(c.values);
    let k = choose|k: int| 0 <= k < c.values.len() && c.values[k] == low;
    assert(crate::scalar::scalar_le(c.values[0], c.values[k]));
    crate::scalar::scalar_order_flip(first, low);
    crate::scalar::scalar_order_equal(first, low);
    let l = choose|l: int| 0 <= l < c.values.len() && c.values[l] == high;
    assert(crate::scalar::scalar_le(c.values[l], c.values[c.values.len() - 1]));
    crate::scalar::scalar_order_flip(last, high);
    crate::scalar::scalar_order_equal(high, last);
    assert(first.data_type == c.data_type);
    assert(last.data_type == c.data_type);
}

/// The statistics of a column with at least one row: its smallest and largest
/// value and its number of nulls.
pub open spec fn column_stats_of(c: ColumnView) -> ColumnStatsView {
    ColumnStatsView {
        min: smallest(c.values),
        max: largest(c.values),
        null_count: crate::batch::null_count_of(c.values) as u32,
    }
}

fn smallest_value(col: &Column) -> (r: ScalarValue)
    requires
        col@.values.len() > 0,
    ensures
        r@ == smallest(col@.values),
{
    let mut best: usize = 0;
    let ghost values = col@.values;
    let n = col.len();
    for i in 1..n
        invariant
            n == values.len(),
            values == col@.values,
            best < i,
            values[best as int] == smallest(values.take(i as int)),
    {
        assert(values.take(i + 1).drop_last() =~= values.take(i as int));
        assert(values.take(i + 1).last() == values[i as int]);
        if let Some(Order::Less) = col.value(i).order(col.value(best)) {
            best = i;
        }
    }
    assert(values.take(n as int) =~= values);
    col.value(best).clone()
}

fn largest_value(col: &Column) -> (r: ScalarValue)
    requires
        col@.values.len() > 0,
    ensures
        r@ == largest(col@.values),
{
    let mut best: usize = 0;
    let ghost values = col@.values;
    let n = col.len();
    for i in 1..n
        invariant
            n == values.len(),
            values == col@.values,
            best < i,
            values[best as int] == largest(values.take(i as int)),
    {
        assert(values.take(i + 1).drop_last() =~= values.take(i as int));
        assert(values.take(i + 1).last() == values[i as int]);
        if let Some(Order::Greater) = col.value(i).order(col.value(best)) {
            best = i;
        }
    }
    assert(values.take(n as int) =~= values);
    col.value(best).clone()
}

/// The property of being a name that no column of the batch has.
pub open spec fn is_missing(batch: BatchView, names: Seq<Seq<char>>) -> spec_fn(int) -> bool {
    |c: int| batch.column_by_name(names[c]) is None
}

/// Why a batch cannot be analyzed, if it cannot.
pub open spec fn analysis_defect(batch: BatchView, names: Seq<Seq<char>>) -> Option<ErrorView> {
    if batch.rows == 0 {
        Some(
            crate::error::internal_error("Received an empty batch in compound btree training"@),
        )
    } else {
        match crate::first::first_where(names.len(), is_missing(batch, names)) {
            Some(c) => Some(
                crate::error::internal_error("Missing column '"@ + names[c] + "' in batch"@),
            ),
            None => None,
        }
    }
}

/// The statistics of the named columns of a batch.
pub open spec fn analysis(batch: BatchView, names: Seq<Seq<char>>) -> Seq<ColumnStatsView> {
    Seq::new(names.len(), |c: int| column_stats_of(batch.column_by_name(names[c])->0))
}

/// Extract per-column statistics. A batch in key order has its first column
/// sorted; the other columns need not be.
pub fn analyze_compound_batch(batch: &RecordBatch, column_names: &Vec<String>) -> (r: Result<
    Vec<ColumnStats>,
    Error,
>)
    ensures
        match analysis_defect(batch@, crate::text::texts(column_names@)) {
            Some(e) => crate::error::fails_with(r, e),
            None => r matches Ok(s) && column_stats_views(s@) == analysis(
                batch@,
                crate::text::texts(column_names@),
            ),
        },
{
    let rows = batch.num_rows();
    if rows == 0 {
        return Err(
            ErrorOf::Internal {
                message: "Received an empty batch in compound btree training".to_owned(),
            },
        );
    }
    let mut stats: Vec<ColumnStats> = Vec::new();
    let ghost names = crate::text::texts(column_names@);
    let ghost p = is_missing(batch@, names);
    for c in 0..column_names.len()
        invariant
            rows == batch@.rows,
            rows > 0,
            names == crate::text::texts(column_names@),
            p == is_missing(batch@, names),
            forall|j: int| 0 <= j < c ==> !(#[trigger] p(j)),
            stats@.len() == c,
            forall|j: int|
                0 <= j < c ==> (#[trigger] stats@[j])@ == column_stats_of(
                    batch@.column_by_name(names[j])->0,
                ),
    {
        match batch.column_by_name(column_names[c].as_str()) {
            Some(col) => {
                assert(!p(c as int));
                let stat = ColumnStats {
                    min: smallest_value(col),
                    max: largest_value(col),
                    null_count: #[verifier::truncate] (col.null_count() as u32),
                };
                stats.push(stat);
            },
            None => {
                proof {
                    assert(p(c as int));
                    crate::first::first_where_found(names.len(), p, c as int);
                }
                return Err(
                    ErrorOf::Internal {
                        message: concat3("Missing column '", column_names[c].as_str(), "' in batch"),
                    },
                );
            },
        }
    }
    proof {
        crate::first::first_where_absent(names.len(), p);
        assert(column_stats_views(stats@) =~= analysis(batch@, names));
    }
    Ok(stats)
}

/// In a column with at most `u32::MAX` rows, what the analysis records covers
/// the column: nothing lies below the smallest or above the largest value, and
/// the count tells whether there are nulls.
pub proof fn analysis_covers(c: ColumnView)
    requires
        c.typed(),
        0 < c.values.len() <= u32::MAX,
    ensures
        ({
            let s = column_stats_of(c);
            crate::lookup::stats_cover(c.values, s.min, s.max, s.null_count)
        }),
{
    crate::batch::null_count_zero(c.values);
    extremes_bound(c);
    let low = smallest(c.values);
    let high = largest(c.values);
    assert forall|i: int| 0 <= i < c.values.len() implies {
        &&& crate::scalar::scalar_order(#[trigger] c.values[i], low) != Some(Order::Less)
        &&& crate::scalar::scalar_order(c.values[i], high) != Some(Order::Greater)
        &&& high.is_null() ==> c.values[i].is_null()
    } by {
        crate::scalar::scalar_order_flip(low, c.values[i]);
        assert(crate::scalar::scalar_le(c.values[i], high));
    }
}

/// The fields of a lookup batch: per indexed column its minima, maxima and null
/// counts, then the page numbers.
pub open spec fn lookup_fields(
    names: Seq<Seq<char>>,
    mins: Seq<DataTypeView>,
    maxs: Seq<DataTypeView>,
) -> Seq<FieldView> {
    Seq::new(3 * mins.len() + 1, |i: int| lookup_field(names, mins, maxs, i))
}

pub open spec fn lookup_field(
    names: Seq<Seq<char>>,
    mins: Seq<DataTypeView>,
    maxs: Seq<DataTypeView>,
    i: int,
) -> FieldView {
    if i == 3 * mins.len() {
        FieldView { name: "page_idx"@, data_type: DataTypeOf::UInt32, nullable: false }
    } else if i % 3 == 0 {
        FieldView { name: "min_"@ + names[i / 3], data_type: mins[i / 3], nullable: true }
    } else if i % 3 == 1 {
        FieldView { name: "max_"@ + names[i / 3], data_type: maxs[i / 3], nullable: true }
    } else {
        FieldView {
            name: "null_count_"@ + names[i / 3],
            data_type: DataTypeOf::UInt32,
            nullable: false,
        }
    }
}

/// The smallest values of a column, page by page.
pub open spec fn minima(stats: Seq<BatchStatsView>, c: int) -> Seq<ScalarView> {
    Seq::new(stats.len(), |p: int| stats[p].column_stats[c].min)
}

/// The largest values of a column, page by page.
pub open spec fn maxima(stats: Seq<BatchStatsView>, c: int) -> Seq<ScalarView> {
    Seq::new(stats.len(), |p: int| stats[p].column_stats[c].max)
}

/// Why the bounds of a column do not make columns, if they do not.
pub open spec fn bounds_defect(stats: Seq<BatchStatsView>, c: int) -> Option<ErrorView> {
    match crate::batch::values_defect(minima(stats, c)) {
        Some(e) => Some(e),
        None => crate::batch::values_defect(maxima(stats, c)),
    }
}

/// The property of being a column whose bounds do not make columns.
pub open spec fn has_bad_bounds(stats: Seq<BatchStatsView>) -> spec_fn(int) -> bool {
    |c: int| bounds_defect(stats, c) is Some
}

/// Why statistics for `n` columns do not make a lookup batch, if they do not.
pub open spec fn stats_defect(stats: Seq<BatchStatsView>, n: nat) -> Option<ErrorView> {
    if stats.len() == 0 {
        None
    } else {
        match crate::first::first_where(n, has_bad_bounds(stats)) {
            Some(c) => bounds_defect(stats, c),
            None => None,
        }
    }
}

/// The columns of a lookup batch with at least one page.
pub open spec fn lookup_columns(stats: Seq<BatchStatsView>, n: nat) -> Seq<ColumnView> {
    Seq::new(3 * n + 1, |i: int| lookup_column(stats, n, i))
}

pub open spec fn lookup_column(stats: Seq<BatchStatsView>, n: nat, i: int) -> ColumnView {
    if i == 3 * n {
        ColumnView {
            data_type: DataTypeOf::UInt32,
            values: Seq::new(
                stats.len(),
                |p: int| crate::batch::u32_scalar(stats[p].page_number),
            ),
        }
    } else if i % 3 == 0 {
        crate::batch::column_of(minima(stats, i / 3))
    } else if i % 3 == 1 {
        crate::batch::column_of(maxima(stats, i / 3))
    } else {
        ColumnView {
            data_type: DataTypeOf::UInt32,
            values: Seq::new(
                stats.len(),
                |p: int| crate::batch::u32_scalar(stats[p].column_stats[i / 3].null_count),
            ),
        }
    }
}

/// The types of the minima, as the first page has them.
pub open spec fn min_types(stats: Seq<BatchStatsView>, n: nat) -> Seq<DataTypeView> {
    Seq::new(n, |c: int| stats[0].column_stats[c].min.data_type)
}

/// The types of the maxima, as the first page has them.
pub open spec fn max_types(stats: Seq<BatchStatsView>, n: nat) -> Seq<DataTypeView> {
    Seq::new(n, |c: int| stats[0].column_stats[c].max.data_type)
}

/// In each of the first `n` columns all pages agree on the type of the minimum
/// and on that of the maximum.
pub open spec fn uniform(stats: Seq<BatchStatsView>, n: nat) -> bool {
    forall|p: int, c: int|
        0 <= p < stats.len() && 0 <= c < n ==> {
            &&& (#[trigger] stats[p].column_stats[c]).min.data_type
                == stats[0].column_stats[c].min.data_type
            &&& stats[p].column_stats[c].max.data_type == stats[0].column_stats[c].max.data_type
        }
}

/// The lookup batch for the given pages.
pub open spec fn lookup_batch(
    stats: Seq<BatchStatsView>,
    names: Seq<Seq<char>>,
    types: Seq<DataTypeView>,
) -> BatchView {
    if stats.len() == 0 {
        crate::batch::empty_batch(
            SchemaView { fields: lookup_fields(names, types, types), metadata: Map::empty() },
        )
    } else {
        BatchView {
            schema: SchemaView {
                fields: lookup_fields(
                    names,
                    min_types(stats, types.len()),
                    max_types(stats, types.len()),
                ),
                metadata: Map::empty(),
            },
            columns: lookup_columns(stats, types.len()),
            rows: stats.len(),
        }
    }
}

fn push_lookup_fields(fields: &mut Vec<Field>, name: &str, min: DataType, max: DataType)
    ensures
        final(fields)@.len() == old(fields)@.len() + 3,
        final(fields)@.take(old(fields)@.len() as int) == old(fields)@,
        final(fields)@[old(fields)@.len() as int]@ == (FieldView {
            name: "min_"@ + name@,
            data_type: min@,
            nullable: true,
        }),
        final(fields)@[old(fields)@.len() as int + 1]@ == (FieldView {
            name: "max_"@ + name@,
            data_type: max@,
            nullable: true,
        }),
        final(fields)@[old(fields)@.len() as int + 2]@ == (FieldView {
            name: "null_count_"@ + name@,
            data_type: DataTypeOf::UInt32,
            nullable: false,
        }),
{
    fields.push(Field::new(concat2("min_", name).as_str(), min, true));
    fields.push(Field::new(concat2("max_", name).as_str(), max, true));
    fields.push(Field::new(concat2("null_count_", name).as_str(), DataType::UInt32, false));
    assert(fields@.take(old(fields)@.len() as int) =~= old(fields)@);
}

fn u32_column(values: Vec<ScalarValue>) -> (r: Column)
    requires
        forall|i: int|
            0 <= i < values@.len() ==> (#[trigger] values@[i])@.data_type is UInt32,
    ensures
        r@ == (ColumnView {
            data_type: DataTypeOf::UInt32,
            values: crate::scalar::scalars(values@),
        }),
{
    match Column::try_new(DataType::UInt32, values) {
        Ok(c) => c,
        Err(_) => {
            proof {
                assert(false);
            }
            vstd::pervasive::unreached()
        },
    }
}

/// The minima and maxima of one column, or why they do not make columns.
fn bound_columns(stats: &Vec<CompoundBatchStats>, c: usize) -> (r: Result<(Column, Column), Error>)
    requires
        stats@.len() > 0,
        forall|p: int| 0 <= p < stats@.len() ==> c < (#[trigger] stats@[p]).column_stats@.len(),
    ensures
        match bounds_defect(batch_stats_views(stats@), c as int) {
            Some(e) => crate::error::fails_with(r, e),
            None => r matches Ok((mins, maxs)) && {
                &&& mins@ == crate::batch::column_of(
                    minima(batch_stats_views(stats@), c as int),
                )
                &&& maxs@ == crate::batch::column_of(
                    maxima(batch_stats_views(stats@), c as int),
                )
                &&& mins@.typed()
                &&& maxs@.typed()
            },
        },
{
    let mut mins: Vec<ScalarValue> = Vec::new();
    let mut maxs: Vec<ScalarValue> = Vec::new();
    let ghost views = batch_stats_views(stats@);
    for p in 0..stats.len()
        invariant
            views == batch_stats_views(stats@),
            forall|p: int| 0 <= p < stats@.len() ==> c < (#[trigger] stats@[p]).column_stats@.len(),
            mins@.len() == p,
            maxs@.len() == p,
            forall|j: int|
                0 <= j < p ==> (#[trigger] mins@[j])@ == minima(views, c as int)[j],
            forall|j: int|
                0 <= j < p ==> (#[trigger] maxs@[j])@ == maxima(views, c as int)[j],
    {
        assert(views[p as int].column_stats[c as int] == stats@[p as int].column_stats@[c as int]@);
        mins.push(stats[p].column_stats[c].min.clone());
        maxs.push(stats[p].column_stats[c].max.clone());
    }
    assert(crate::scalar::scalars(mins@) =~= minima(views, c as int));
    assert(crate::scalar::scalars(maxs@) =~= maxima(views, c as int));
    let low = match Column::from_scalars(mins) {
        Ok(col) => col,
        Err(e) => {
            return Err(e);
        },
    };
    match Column::from_scalars(maxs) {
        Ok(high) => Ok((low, high)),
        Err(e) => Err(e),
    }
}

/// Columns and fields of a lookup batch fit together.
proof fn lookup_batch_fits(
    stats: Seq<BatchStatsView>,
    names: Seq<Seq<char>>,
    n: nat,
    schema: SchemaView,
)
    requires
        stats.len() > 0,
        schema.fields == lookup_fields(names, min_types(stats, n), max_types(stats, n)),
    ensures
        crate::batch::batch_defect(schema, lookup_columns(stats, n)) is None,
{
    let fs = schema.fields;
    let cs = lookup_columns(stats, n);
    assert forall|i: int| 0 <= i < cs.len() implies !(
    #[trigger] crate::batch::has_forbidden_null(fs, cs)(i)) by {
        assert(fs[i] == lookup_field(names, min_types(stats, n), max_types(stats, n), i));
        assert(cs[i] == lookup_column(stats, n, i));
    }
    crate::first::first_where_absent(cs.len(), crate::batch::has_forbidden_null(fs, cs));
    assert forall|i: int| 0 <= i < cs.len() implies (#[trigger] cs[i]).values.len()
        == cs[0].values.len() by {
        assert(cs[i] == lookup_column(stats, n, i));
        assert(cs[0] == lookup_column(stats, n, 0));
    }
    assert forall|i: int| 0 <= i < cs.len() implies !(
    #[trigger] crate::batch::has_other_type(fs, cs)(i)) by {
        assert(fs[i] == lookup_field(names, min_types(stats, n), max_types(stats, n), i));
        assert(cs[i] == lookup_column(stats, n, i));
    }
    crate::first::first_where_absent(cs.len(), crate::batch::has_other_type(fs, cs));
}

/// Convert per-column statistics to a lookup batch. Fails when the bounds of a
/// column do not make a column of the first page's type.
pub fn compound_stats_as_batch(
    stats: &Vec<CompoundBatchStats>,
    column_names: &Vec<String>,
    data_types: &Vec<DataType>,
) -> (r: Result<RecordBatch, Error>)
    requires
        column_names@.len() >= data_types@.len(),
        forall|p: int|
            0 <= p < stats@.len() ==> (#[trigger] stats@[p]).column_stats@.len()
                >= data_types@.len(),
    ensures
        match stats_defect(batch_stats_views(stats@), data_types@.len()) {
            Some(e) => crate::error::fails_with(r, e),
            None => r matches Ok(b) && b@ == lookup_batch(
                batch_stats_views(stats@),
                crate::text::texts(column_names@),
                crate::datatype::types(data_types@),
            ),
        },
{
    let n = data_types.len();
    let ghost views = batch_stats_views(stats@);
    let ghost names = crate::text::texts(column_names@);
    let ghost tys = crate::datatype::types(data_types@);
    let mut fields: Vec<Field> = Vec::new();
    if stats.len() == 0 {
        for c in 0..n
            invariant
                n == data_types@.len(),
                names == crate::text::texts(column_names@),
                tys == crate::datatype::types(data_types@),
                column_names@.len() >= n,
                fields@.len() == 3 * c,
                forall|i: int|
                    0 <= i < 3 * c ==> (#[trigger] fields@[i])@ == lookup_field(names, tys, tys, i),
        {
            let ghost before = fields@;
            push_lookup_fields(
                &mut fields,
                column_names[c].as_str(),
                data_types[c].clone(),
                data_types[c].clone(),
            );
            assert forall|i: int| 0 <= i < 3 * c + 3 implies (#[trigger] fields@[i])@
                == lookup_field(names, tys, tys, i) by {
                if i < 3 * c {
                    assert(fields@.take(3 * c as int)[i] == before[i]);
                }
            }
        }
        fields.push(Field::new("page_idx", DataType::UInt32, false));
        assert(crate::datatype::fields_view(fields@) =~= lookup_fields(names, tys, tys));
        return Ok(RecordBatch::new_empty(Schema::new(fields)));
    }
    let ghost mins = min_types(views, n as nat);
    let ghost maxs = max_types(views, n as nat);
    let ghost bad = has_bad_bounds(views);
    let mut columns: Vec<Column> = Vec::new();
    for c in 0..n
        invariant
            n == data_types@.len(),
            stats@.len() > 0,
            views == batch_stats_views(stats@),
            names == crate::text::texts(column_names@),
            mins == min_types(views, n as nat),
            maxs == max_types(views, n as nat),
            column_names@.len() >= n,
            forall|p: int|
                0 <= p < stats@.len() ==> (#[trigger] stats@[p]).column_stats@.len() >= n,
            fields@.len() == 3 * c,
            columns@.len() == 3 * c,
            forall|i: int|
                0 <= i < 3 * c ==> (#[trigger] fields@[i])@ == lookup_field(names, mins, maxs, i),
            forall|i: int|
                0 <= i < 3 * c ==> (#[trigger] columns@[i])@ == lookup_column(views, n as nat, i),
            bad == has_bad_bounds(views),
            forall|j: int| 0 <= j < c ==> !(#[trigger] bad(j)),
    {
        let (low, high) = match bound_columns(stats, c) {
            Ok(pair) => pair,
            Err(e) => {
                proof {
                    assert(bad(c as int));
                    crate::first::first_where_found(n as nat, bad, c as int);
                }
                return Err(e);
            },
        };
        assert(!bad(c as int));
        let mut counts: Vec<ScalarValue> = Vec::new();
        for p in 0..stats.len()
            invariant
                c < n,
                forall|p: int|
                    0 <= p < stats@.len() ==> (#[trigger] stats@[p]).column_stats@.len() >= n,
                counts@.len() == p,
                forall|j: int|
                    0 <= j < p ==> (#[trigger] counts@[j])@ == crate::batch::u32_scalar(
                        stats@[j].column_stats@[c as int].null_count,
                    ),
        {
            counts.push(ScalarValue::UInt32(Some(stats[p].column_stats[c].null_count)));
        }
        let ghost before = fields@;
        let ghost columns_before = columns@;
        push_lookup_fields(
            &mut fields,
            column_names[c].as_str(),
            low.data_type().clone(),
            high.data_type().clone(),
        );
        let count_column = u32_column(counts);
        proof {
            let k = 3 * c as int;
            assert(low@.values =~= lookup_column(views, n as nat, k).values);
            assert(high@.values =~= lookup_column(views, n as nat, k + 1).values);
            assert(count_column@.values =~= lookup_column(views, n as nat, k + 2).values);
        }
        columns.push(low);
        columns.push(high);
        columns.push(count_column);
        assert forall|i: int| 0 <= i < 3 * c + 3 implies (#[trigger] fields@[i])@ == lookup_field(
            names,
            mins,
            maxs,
            i,
        ) by {
            if i < 3 * c {
                assert(fields@.take(3 * c as int)[i] == before[i]);
            }
        }
        assert forall|i: int| 0 <= i < 3 * c + 3 implies (#[trigger] columns@[i])@
            == lookup_column(views, n as nat, i) by {
            if i < 3 * c {
                assert(columns@[i] == columns_before[i]);
            }
        }
    }
    let mut numbers: Vec<ScalarValue> = Vec::new();
    for p in 0..stats.len()
        invariant
            numbers@.len() == p,
            forall|j: int|
                0 <= j < p ==> (#[trigger] numbers@[j])@ == crate::batch::u32_scalar(
                    stats@[j].page_number,
                ),
    {
        numbers.push(ScalarValue::UInt32(Some(stats[p].page_number)));
    }
    let page_column = u32_column(numbers);
    fields.push(Field::new("page_idx", DataType::UInt32, false));
    proof {
        assert(page_column@.values =~= lookup_column(views, n as nat, 3 * n as int).values);
    }
    columns.push(page_column);
    let schema = Schema::new(fields);
    proof {
        assert(schema@.fields =~= lookup_fields(names, mins, maxs));
        assert(crate::batch::columns_view(columns@) =~= lookup_columns(views, n as nat));
        lookup_batch_fits(views, names, n as nat, schema@);
        assert(lookup_columns(views, n as nat)[0] == lookup_column(views, n as nat, 0));
        crate::first::first_where_absent(n as nat, bad);
    }
    RecordBatch::try_new(schema, columns)
}

/// The lookup's form of a page's statistics.
pub open spec fn as_page_stats(s: BatchStatsView) -> PageStatsView {
    PageStatsView {
        mins: Seq::new(s.column_stats.len(), |c: int| s.column_stats[c].min),
        maxs: Seq::new(s.column_stats.len(), |c: int| s.column_stats[c].max),
        null_counts: Seq::new(s.column_stats.len(), |c: int| s.column_stats[c].null_count),
        page_number: s.page_number,
    }
}

/// Reading a lookup batch gives back the statistics it was written from, page
/// by page, and the types of the indexed columns.
pub proof fn lookup_round_trip(
    stats: Seq<BatchStatsView>,
    names: Seq<Seq<char>>,
    types: Seq<DataTypeView>,
)
    requires
        names.len() == types.len(),
        forall|p: int|
            0 <= p < stats.len() ==> (#[trigger] stats[p]).column_stats.len() == types.len(),
        uniform(stats, types.len()),
    ensures
        ({
            let b = lookup_batch(stats, names, types);
            let n = types.len();
            &&& crate::lookup::readable_lookup(b, n)
            &&& crate::lookup::lookup_defect(b, names) is None
            &&& crate::lookup::parsed_lookup(b, n) == (LookupView {
                page_stats: Seq::new(stats.len(), |p: int| as_page_stats(stats[p])),
                data_types: if stats.len() == 0 {
                    types
                } else {
                    min_types(stats, n)
                },
            })
        }),
{
    let b = lookup_batch(stats, names, types);
    let n = types.len();
    let parsed = crate::lookup::parsed_lookup(b, n);
    if stats.len() == 0 {
        assert(parsed.data_types =~= types);
        assert(parsed.page_stats =~= Seq::new(0, |p: int| as_page_stats(stats[p])));
    } else {
        let mins = min_types(stats, n);
        let maxs = max_types(stats, n);
        assert forall|i: int| #![trigger b.columns[i]] 0 <= i < b.columns.len() implies {
            &&& b.columns[i].data_type == b.schema.fields[i].data_type
            &&& b.columns[i].values.len() == b.rows
            &&& b.columns[i].typed()
            &&& !b.schema.fields[i].nullable ==> !b.columns[i].has_null()
        } by {
            assert(b.columns[i] == lookup_column(stats, n, i));
            assert(b.schema.fields[i] == lookup_field(names, mins, maxs, i));
            assert forall|p: int| 0 <= p < stats.len() implies (
            #[trigger] b.columns[i].values[p]).data_type == b.columns[i].data_type by {
                if i < 3 * n {
                    assert(stats[p].column_stats[i / 3].min.data_type
                        == stats[0].column_stats[i / 3].min.data_type);
                }
            }
        }
        assert(b.columns.last() == lookup_column(stats, n, 3 * n as int));
        assert forall|c: int| 0 <= c < n implies (#[trigger] b.columns[crate::lookup::count_column(
            c,
        )]).data_type is UInt32 by {
            assert(b.columns[3 * c + 2] == lookup_column(stats, n, 3 * c + 2));
        }
        let bad = crate::lookup::has_bad_counts(b);
        assert forall|c: int| 0 <= c < n implies !(#[trigger] bad(c)) by {
            assert(b.columns[crate::lookup::count_column(c)].data_type is UInt32);
        }
        crate::first::first_where_absent(n, bad);
        assert forall|p: int| 0 <= p < stats.len() implies crate::lookup::parsed_page(b, n, p)
            == as_page_stats(#[trigger] stats[p]) by {
            let page = crate::lookup::parsed_page(b, n, p);
            assert forall|c: int| 0 <= c < n implies {
                &&& page.mins[c] == stats[p].column_stats[c].min
                &&& page.maxs[c] == stats[p].column_stats[c].max
                &&& page.null_counts[c] == stats[p].column_stats[c].null_count
            } by {
                assert(b.columns[3 * c] == lookup_column(stats, n, 3 * c));
                assert(b.columns[3 * c + 1] == lookup_column(stats, n, 3 * c + 1));
                assert(b.columns[3 * c + 2] == lookup_column(stats, n, 3 * c + 2));
            }
            assert(page =~= as_page_stats(stats[p]));
        }
        assert(parsed.page_stats =~= Seq::new(stats.len(), |p: int| as_page_stats(stats[p])));
        assert forall|c: int| 0 <= c < n implies parsed.data_types[c] == mins[c] by {
            assert(b.schema.fields[3 * c] == lookup_field(names, mins, maxs, 3 * c));
        }
        assert(parsed.data_types =~= mins);
    }
}

/// The statistics of a page, column by column: the smallest and the largest are
/// values of the column that the name finds, no value lies outside them, and the
/// count is that of its nulls.
pub proof fn analysis_describes_columns(
    batch: BatchView,
    names: Seq<Seq<char>>,
    c: int,
    col: ColumnView,
)
    requires
        batch.wf(),
        0 < batch.rows <= u32::MAX,
        0 <= c < names.len(),
        batch.column_by_name(names[c]) == Some(col),
    ensures
        analysis(batch, names).len() == names.len(),
        col.values.contains(analysis(batch, names)[c].min),
        col.values.contains(analysis(batch, names)[c].max),
        forall|i: int|
            0 <= i < col.values.len() ==> crate::scalar::scalar_le(
                analysis(batch, names)[c].min,
                #[trigger] col.values[i],
            ) && crate::scalar::scalar_le(col.values[i], analysis(batch, names)[c].max),
        analysis(batch, names)[c].null_count == col.values.filter(
            |v: ScalarView| v.key is None,
        ).len(),
{
    let k = batch.index_of(names[c])->0;
    crate::first::first_where_spec(
        batch.schema.fields.len(),
        crate::batch::is_named(batch.schema.fields, names[c]),
    );
    assert(batch.columns[k] == col);
    extremes_bound(col);
    crate::batch::null_count_counts_nulls(col.values);
    crate::batch::null_count_zero(col.values);
}

/// A page can be analyzed exactly when it has rows and all the named columns.
pub proof fn analysis_needs_rows_and_columns(batch: BatchView, names: Seq<Seq<char>>)
    ensures
        analysis_defect(batch, names) is None <==> batch.rows > 0 && forall|c: int|
            0 <= c < names.len() ==> batch.column_by_name(#[trigger] names[c]) is Some,
        batch.rows == 0 ==> analysis_defect(batch, names) == Some(
            ErrorView::Internal {
                message: "Received an empty batch in compound btree training"@,
            },
        ),
{
    let missing = is_missing(batch, names);
    crate::first::first_where_spec(names.len(), missing);
    if analysis_defect(batch, names) is None {
        assert forall|c: int| 0 <= c < names.len() implies batch.column_by_name(
            #[trigger] names[c],
        ) is Some by {
            assert(!missing(c));
        }
    }
}

/// The lookup batch has a row per page and, for each indexed column in order, its
/// minima, its maxima and its null counts under names that say so, and last the
/// page numbers.
pub proof fn lookup_batch_is_laid_out(
    stats: Seq<BatchStatsView>,
    names: Seq<Seq<char>>,
    types: Seq<DataTypeView>,
    c: int,
    p: int,
)
    requires
        names.len() == types.len(),
        0 <= c < names.len(),
        0 <= p < stats.len(),
    ensures
        ({
            let b = lookup_batch(stats, names, types);
            let n = names.len() as int;
            let s = stats[p].column_stats[c];
            &&& b.rows == stats.len()
            &&& b.columns.len() == 3 * n + 1
            &&& b.schema.fields.len() == 3 * n + 1
            &&& b.schema.fields[3 * c].name == "min_"@ + names[c]
            &&& b.schema.fields[3 * c + 1].name == "max_"@ + names[c]
            &&& b.schema.fields[3 * c + 2].name == "null_count_"@ + names[c]
            &&& b.schema.fields[3 * n].name == "page_idx"@
            &&& b.schema.fields[3 * c].nullable
            &&& b.schema.fields[3 * c + 1].nullable
            &&& !b.schema.fields[3 * c + 2].nullable
            &&& !b.schema.fields[3 * n].nullable
            &&& b.schema.fields[3 * c].data_type == stats[0].column_stats[c].min.data_type
            &&& b.schema.fields[3 * c + 1].data_type == stats[0].column_stats[c].max.data_type
            &&& b.schema.fields[3 * c + 2].data_type is UInt32
            &&& b.schema.fields[3 * n].data_type is UInt32
            &&& b.columns[3 * c].values[p].key == s.min.key
            &&& b.columns[3 * c + 1].values[p].key == s.max.key
            &&& b.columns[3 * c + 2].values[p] == ScalarValue::UInt32(Some(s.null_count))@
            &&& b.columns[3 * n].values[p] == ScalarValue::UInt32(Some(stats[p].page_number))@
        }),
{
    let n = types.len();
    let b = lookup_batch(stats, names, types);
    assert(b.columns[3 * c] == lookup_column(stats, n, 3 * c));
    assert(b.columns[3 * c + 1] == lookup_column(stats, n, 3 * c + 1));
    assert(b.columns[3 * c + 2] == lookup_column(stats, n, 3 * c + 2));
    assert(b.columns[3 * n as int] == lookup_column(stats, n, 3 * n as int));
    let mins = min_types(stats, n);
    let maxs = max_types(stats, n);
    assert(b.schema.fields[3 * c] == lookup_field(names, mins, maxs, 3 * c));
    assert(b.schema.fields[3 * c + 1] == lookup_field(names, mins, maxs, 3 * c + 1));
    assert(b.schema.fields[3 * c + 2] == lookup_field(names, mins, maxs, 3 * c + 2));
    assert(b.schema.fields[3 * n as int] == lookup_field(names, mins, maxs, 3 * n as int));
    assert((3 * c + 1) / 3 == c && (3 * c + 2) / 3 == c && 3 * c / 3 == c);
}

/// Without pages the lookup batch has no rows and still its fields, with the
/// types of the index.
pub proof fn empty_lookup_batch_has_its_fields(
    names: Seq<Seq<char>>,
    types: Seq<DataTypeView>,
    c: int,
)
    requires
        names.len() == types.len(),
        0 <= c < names.len(),
    ensures
        ({
            let b = lookup_batch(Seq::empty(), names, types);
            let n = names.len() as int;
            &&& b.rows == 0
            &&& b.schema.fields.len() == 3 * n + 1
            &&& b.columns.len() == 3 * n + 1
            &&& b.schema.fields[3 * c].name == "min_"@ + names[c]
            &&& b.schema.fields[3 * c].data_type == types[c]
            &&& b.schema.fields[3 * c + 1].name == "max_"@ + names[c]
            &&& b.schema.fields[3 * c + 1].data_type == types[c]
            &&& b.schema.fields[3 * c + 2].data_type is UInt32
            &&& b.schema.fields[3 * n].name == "page_idx"@
        }),
{
    assert((3 * c + 1) / 3 == c && (3 * c + 2) / 3 == c && 3 * c / 3 == c);
}

/// Statistics make a lookup batch exactly when, in every indexed column, the
/// minima make a column and the maxima do.
pub proof fn statistics_make_a_lookup_batch(
    stats: Seq<BatchStatsView>,
    n: nat,
    mins: Seq<Seq<ScalarView>>,
    maxs: Seq<Seq<ScalarView>>,
)
    requires
        mins.len() == n,
        maxs.len() == n,
        forall|c: int|
            0 <= c < n ==> (#[trigger] mins[c]) == Seq::new(
                stats.len(),
                |p: int| stats[p].column_stats[c].min,
            ),
        forall|c: int|
            0 <= c < n ==> (#[trigger] maxs[c]) == Seq::new(
                stats.len(),
                |p: int| stats[p].column_stats[c].max,
            ),
    ensures
        stats_defect(stats, n) is None <==> stats.len() == 0 || forall|c: int|
            0 <= c < n ==> crate::batch::values_defect(#[trigger] mins[c]) is None
                && crate::batch::values_defect(maxs[c]) is None,
{
    let bad = has_bad_bounds(stats);
    crate::first::first_where_spec(n, bad);
    assert forall|c: int| 0 <= c < n implies (#[trigger] bad(c) <==> !(
    crate::batch::values_defect(mins[c]) is None && crate::batch::values_defect(
        maxs[c],
    ) is None)) by {
        assert(minima(stats, c) =~= mins[c]);
        assert(maxima(stats, c) =~= maxs[c]);
    }
    if stats.len() > 0 {
        match crate::first::first_where(n, bad) {
            Some(c) => {
                assert(bad(c));
                assert(mins[c] == mins[c]);
            },
            None => {
                assert forall|c: int| 0 <= c < n implies crate::batch::values_defect(
                    #[trigger] mins[c],
                ) is None && crate::batch::values_defect(maxs[c]) is None by {
                    assert(!bad(c));
                }
            },
        }
    }
}

/// Statistics in a contract are the statistics themselves, page by page and
/// column by column.
pub proof fn statistics_show_themselves(stats: Seq<CompoundBatchStats>, p: int, c: int)
    requires
        0 <= p < stats.len(),
        0 <= c < stats[p].column_stats@.len(),
    ensures
        ({
            let view = batch_stats_views(stats);
            let s = stats[p].column_stats@[c];
            &&& view.len() == stats.len()
            &&& view[p].page_number == stats[p].page_number
            &&& view[p].column_stats.len() == stats[p].column_stats@.len()
            &&& view[p].column_stats[c].min == s.min@
            &&& view[p].column_stats[c].max == s.max@
            &&& view[p].column_stats[c].null_count == s.null_count
        }),
{
}

/// A page that lacks a column cannot be analyzed, and the error names the first
/// that it lacks.
pub proof fn missing_column_is_named(batch: BatchView, names: Seq<Seq<char>>, c: int)
    requires
        batch.rows > 0,
        0 <= c < names.len(),
        batch.column_by_name(names[c]) is None,
        forall|d: int| 0 <= d < c ==> batch.column_by_name(#[trigger] names[d]) is Some,
    ensures
        analysis_defect(batch, names) == Some(
            ErrorView::Internal { message: "Missing column '"@ + names[c] + "' in batch"@ },
        ),
{
    let missing = is_missing(batch, names);
    assert(missing(c));
    assert forall|d: int| 0 <= d < c implies !(#[trigger] missing(d)) by {
        assert(batch.column_by_name(names[d]) is Some);
    }
    crate::first::first_where_found(names.len(), missing, c);
}

/// The statistics of a page, as they are given: of every named column a smallest
/// and a largest value that the column has and that bound all it has, and the
/// number of its nulls.
pub proof fn given_statistics_describe_columns(
    batch: &RecordBatch,
    column_names: &Vec<String>,
    stats: Vec<ColumnStats>,
    c: int,
    i: int,
)
    requires
        call_ensures(analyze_compound_batch, (batch, column_names), Ok(stats)),
        batch@.wf(),
        batch@.rows <= u32::MAX,
        0 <= c < column_names@.len(),
        0 <= i < batch@.rows,
    ensures
        match batch@.column_by_name(column_names@[c]@) {
            Some(col) => {
                &&& stats@.len() == column_names@.len()
                &&& col.values.contains(stats@[c].min@)
                &&& col.values.contains(stats@[c].max@)
                &&& crate::scalar::scalar_le(stats@[c].min@, col.values[i])
                &&& crate::scalar::scalar_le(col.values[i], stats@[c].max@)
                &&& stats@[c].null_count == col.values.filter(|v: ScalarView| v.key is None).len()
            },
            None => false,
        },
{
    let names = crate::text::texts(column_names@);
    analysis_needs_rows_and_columns(batch@, names);
    assert(names[c] == column_names@[c]@);
    let k = batch@.index_of(names[c])->0;
    crate::first::first_where_spec(
        batch@.schema.fields.len(),
        crate::batch::is_named(batch@.schema.fields, names[c]),
    );
    let col = batch@.columns[k];
    assert(batch@.column_by_name(names[c]) == Some(col));
    analysis_describes_columns(batch@, names, c, col);
    assert(column_stats_views(stats@)[c] == stats@[c]@);
    assert(col.values[i] == col.values[i]);
}

} // verus!
