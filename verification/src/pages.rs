//! Cutting sorted rows into pages of one size.
use vstd::arithmetic::div_mod::{lemma_fundamental_div_mod, lemma_fundamental_div_mod_converse};
use vstd::prelude::*;

use crate::batch::{concatenated, joined_values, sliced, total_rows, BatchView, RecordBatch};

verus! {

/// How many pages of `size` rows it takes to hold `rows` rows.
pub open spec fn pages_for(rows: nat, size: nat) -> nat {
    ((rows + size - 1) / size as int) as nat
}

/// The position after the last row of page `k`.
pub open spec fn page_end(rows: nat, size: nat, k: int) -> int {
    if (k + 1) * size <= rows {
        (k + 1) * size
    } else {
        rows as int
    }
}

/// Page `k`: the rows from `k * size` on, `size` of them or those that are left.
pub open spec fn page_of(b: BatchView, size: nat, k: int) -> BatchView {
    sliced(b, k * size, page_end(b.rows, size, k))
}

/// The pages of a batch, in order.
pub open spec fn cut(b: BatchView, size: nat) -> Seq<BatchView> {
    Seq::new(pages_for(b.rows, size), |k: int| page_of(b, size, k))
}

/// The pages of batches with the same fields: those of their rows, one after
/// another.
pub open spec fn input_pages(batches: Seq<BatchView>, size: nat) -> Seq<BatchView> {
    if batches.len() == 0 {
        Seq::empty()
    } else {
        cut(concatenated(batches[0].schema, batches), size)
    }
}

/// The batches have the fields of the first.
pub open spec fn same_fields(batches: Seq<BatchView>) -> bool {
    forall|p: int|
        0 <= p < batches.len() ==> (#[trigger] batches[p]).schema.fields
            == batches[0].schema.fields
}

/// The pages hold all rows, and all but the last are full.
pub proof fn pages_for_bounds(rows: nat, size: nat)
    requires
        size > 0,
    ensures
        rows <= pages_for(rows, size) * size,
        pages_for(rows, size) > 0 ==> (pages_for(rows, size) - 1) * size < rows,
        rows == 0 ==> pages_for(rows, size) == 0,
{
    let n = pages_for(rows, size) as int;
    let s = size as int;
    let x = rows + size - 1;
    lemma_fundamental_div_mod(x, s);
    assert(0 <= x / s) by {
        vstd::arithmetic::div_mod::lemma_div_pos_is_pos(x, s);
    }
    assert((n - 1) * s == n * s - s) by (nonlinear_arith);
    assert(s * n == n * s) by (nonlinear_arith);
    if rows == 0 {
        assert(0 * s == 0) by (nonlinear_arith);
        lemma_fundamental_div_mod_converse(x, s, 0, s - 1);
    }
}

/// The number of pages is the one with which they hold all rows and all but
/// the last are full.
pub proof fn pages_for_is(rows: nat, size: nat, n: nat)
    requires
        size > 0,
        rows <= n * size,
        n > 0 ==> (n - 1) * size < rows,
    ensures
        pages_for(rows, size) == n,
{
    let s = size as int;
    assert((n - 1) * s == n * s - s) by (nonlinear_arith);
    assert(s * n == n * s) by (nonlinear_arith);
    assert(0 * s == 0) by (nonlinear_arith);
    lemma_fundamental_div_mod_converse(rows + s - 1, s, n as int, rows + s - 1 - n * s);
}

/// Where page `k` starts and ends.
pub proof fn page_bounds(rows: nat, size: nat, k: int)
    requires
        size > 0,
        0 <= k < pages_for(rows, size),
    ensures
        0 <= k * size < page_end(rows, size, k) <= rows,
        page_end(rows, size, k) - k * size <= size,
        k + 1 < pages_for(rows, size) ==> page_end(rows, size, k) == (k + 1) * size,
        k + 1 == pages_for(rows, size) ==> page_end(rows, size, k) == rows,
{
    pages_for_bounds(rows, size);
    let n = pages_for(rows, size) as int;
    let s = size as int;
    assert((k + 1) * s == k * s + s) by (nonlinear_arith);
    assert(0 <= k * s && k * s <= (n - 1) * s) by (nonlinear_arith)
        requires
            0 <= k <= n - 1,
            s > 0,
    ;
    if k + 1 < n {
        assert((k + 1) * s <= (n - 1) * s) by (nonlinear_arith)
            requires
                k + 1 <= n - 1,
                s > 0,
        ;
    }
}

/// Cut batches with the same fields into pages of `size` rows; the last page
/// has those that are left.
pub fn cut_pages(batches: &Vec<RecordBatch>, size: usize) -> (r: Vec<RecordBatch>)
    requires
        size > 0,
        same_fields(crate::batch::batches_view(batches@)),
        total_rows(crate::batch::batches_view(batches@)) <= usize::MAX,
    ensures
        crate::batch::batches_view(r@) == input_pages(
            crate::batch::batches_view(batches@),
            size as nat,
        ),
{
    let mut pages: Vec<RecordBatch> = Vec::new();
    let ghost views = crate::batch::batches_view(batches@);
    if batches.len() == 0 {
        assert(crate::batch::batches_view(pages@) =~= Seq::empty());
        return pages;
    }
    assert forall|p: int| 0 <= p < batches@.len() implies (
    #[trigger] batches@[p])@.schema.fields == batches@[0]@.schema.fields by {
        assert(views[p] == batches@[p]@);
        assert(views[0] == batches@[0]@);
    }
    let all = RecordBatch::concat(batches[0].schema().clone(), batches);
    assert(views[0] == batches@[0]@);
    let rows = all.num_rows();
    let mut from: usize = 0;
    assert(0 * size == 0) by (nonlinear_arith);
    while from < rows
        invariant
            size > 0,
            rows == all@.rows,
            from <= rows,
            from < rows ==> from == pages@.len() * size,
            rows <= pages@.len() * size || from < rows,
            pages@.len() > 0 ==> (pages@.len() - 1) * size < rows,
            forall|k: int|
                0 <= k < pages@.len() ==> (#[trigger] pages@[k])@ == page_of(
                    all@,
                    size as nat,
                    k,
                ),
        decreases rows - from,
    {
        let ghost n = pages@.len() as int;
        assert((n + 1) * size == n * size + size) by (nonlinear_arith);
        let to = if rows - from < size {
            rows
        } else {
            from + size
        };
        pages.push(all.slice(from, to));
        from = to;
    }
    proof {
        pages_for_is(rows as nat, size as nat, pages@.len());
        assert(crate::batch::batches_view(pages@) =~= cut(all@, size as nat));
    }
    pages
}

/// A page is a batch.
pub proof fn page_wf(b: BatchView, size: nat, k: int)
    requires
        b.wf(),
        size > 0,
        0 <= k < cut(b, size).len(),
    ensures
        cut(b, size)[k].wf(),
{
    page_bounds(b.rows, size, k);
    crate::batch::sliced_wf(b, k * size, page_end(b.rows, size, k));
}

/// Pages have no more than `size` rows and at least one, and all but the last
/// have exactly `size`. There are as many as it takes.
pub proof fn pages_are_full(b: BatchView, size: nat)
    requires
        size > 0,
    ensures
        cut(b, size).len() == pages_for(b.rows, size),
        forall|k: int|
            0 <= k < cut(b, size).len() ==> {
                &&& 0 < (#[trigger] cut(b, size)[k]).rows <= size
                &&& k < cut(b, size).len() - 1 ==> cut(b, size)[k].rows == size
            },
{
    assert forall|k: int| 0 <= k < cut(b, size).len() implies {
        &&& 0 < (#[trigger] cut(b, size)[k]).rows <= size
        &&& k < cut(b, size).len() - 1 ==> cut(b, size)[k].rows == size
    } by {
        page_bounds(b.rows, size, k);
        assert((k + 1) * size as int == k * size as int + size as int) by (nonlinear_arith);
    }
}

/// The first `k` pages hold the first rows.
proof fn first_pages(b: BatchView, size: nat, k: nat, i: int)
    requires
        b.wf(),
        size > 0,
        k <= pages_for(b.rows, size),
        0 <= i < b.columns.len(),
    ensures
        ({
            let end = if k == 0 {
                0
            } else {
                page_end(b.rows, size, k - 1)
            };
            &&& 0 <= end <= b.rows
            &&& total_rows(cut(b, size).take(k as int)) == end
            &&& joined_values(cut(b, size).take(k as int), i) == b.columns[i].values.subrange(
                0,
                end,
            )
        }),
    decreases k,
{
    let pages = cut(b, size).take(k as int);
    let values = b.columns[i].values;
    if k == 0 {
        assert(values.subrange(0, 0) =~= Seq::empty());
    } else {
        first_pages(b, size, (k - 1) as nat, i);
        assert(pages.drop_last() =~= cut(b, size).take(k - 1));
        assert(pages.last() == page_of(b, size, k - 1));
        page_bounds(b.rows, size, k - 1);
        if k > 1 {
            page_bounds(b.rows, size, k - 2);
        } else {
            assert(0 * size == 0) by (nonlinear_arith);
        }
        let from = (k - 1) * size;
        let to = page_end(b.rows, size, k - 1);
        assert(values.subrange(0, from) + values.subrange(from, to) =~= values.subrange(0, to));
    }
}

/// Cutting loses, adds and reorders no row: the pages, one after another, are
/// the rows that were cut.
pub proof fn pages_join_to_input(b: BatchView, size: nat)
    requires
        b.wf(),
        b.columns.len() > 0,
        size > 0,
    ensures
        concatenated(b.schema, cut(b, size)) == b,
{
    let n = pages_for(b.rows, size);
    let joined = concatenated(b.schema, cut(b, size));
    pages_for_bounds(b.rows, size);
    if n > 0 {
        page_bounds(b.rows, size, n - 1);
    }
    assert(cut(b, size).take(n as int) =~= cut(b, size));
    assert forall|i: int| 0 <= i < b.columns.len() implies joined.columns[i] == b.columns[i] by {
        first_pages(b, size, n, i);
        assert(b.columns[i].values.subrange(0, b.rows as int) =~= b.columns[i].values);
        assert(joined.columns[i].values == b.columns[i].values);
    }
    first_pages(b, size, n, 0);
    assert(joined.columns =~= b.columns);
}

/// The page of a row and its place there.
pub proof fn row_is_on_page(b: BatchView, size: nat, row: int)
    requires
        b.wf(),
        size > 0,
        0 <= row < b.rows,
    ensures
        0 <= row / (size as int) < cut(b, size).len(),
        0 <= row % (size as int) < cut(b, size)[row / (size as int)].rows,
        forall|i: int|
            #![trigger b.columns[i]]
            0 <= i < b.columns.len() ==> cut(b, size)[row / (size as int)].columns[i].values[row
                % (size as int)] == b.columns[i].values[row],
{
    let s = size as int;
    let k = row / s;
    let m = row % s;
    lemma_fundamental_div_mod(row, s);
    assert(0 <= k) by {
        vstd::arithmetic::div_mod::lemma_div_pos_is_pos(row, s);
    }
    assert(s * k == k * s) by (nonlinear_arith);
    pages_for_bounds(b.rows, size);
    let n = pages_for(b.rows, size) as int;
    if k >= n {
        assert(k * s >= n * s) by (nonlinear_arith)
            requires
                k >= n,
                s > 0,
        ;
    }
    page_bounds(b.rows, size, k);
    assert((k + 1) * s == k * s + s) by (nonlinear_arith);
}

/// Every row of a page is one of those that were cut.
pub proof fn page_row_is_input(b: BatchView, size: nat, k: int, m: int)
    requires
        b.wf(),
        size > 0,
        0 <= k < cut(b, size).len(),
        0 <= m < cut(b, size)[k].rows,
    ensures
        0 <= k * size + m < b.rows,
        forall|i: int|
            #![trigger b.columns[i]]
            0 <= i < b.columns.len() ==> cut(b, size)[k].columns[i].values[m]
                == b.columns[i].values[k * size + m],
{
    page_bounds(b.rows, size, k);
}

/// Paging batches loses, adds and reorders no row: the pages, one after another,
/// hold what the batches hold, one after another. All but the last have exactly
/// `size` rows, and the last has at least one.
pub proof fn paging_keeps_rows(batches: Seq<BatchView>, size: nat)
    requires
        size > 0,
        batches.len() > 0,
        batches[0].columns.len() > 0,
        forall|p: int|
            0 <= p < batches.len() ==> (#[trigger] batches[p]).wf() && batches[p].schema.fields
                == batches[0].schema.fields,
    ensures
        ({
            let pages = input_pages(batches, size);
            let schema = batches[0].schema;
            &&& total_rows(pages) == total_rows(batches)
            &&& forall|i: int|
                0 <= i < schema.fields.len() ==> #[trigger] joined_values(pages, i)
                    == joined_values(batches, i)
            &&& forall|k: int|
                0 <= k < pages.len() ==> 0 < (#[trigger] pages[k]).rows <= size
                    && pages[k].schema.fields == schema.fields
            &&& forall|k: int|
                0 <= k < pages.len() - 1 ==> (#[trigger] pages[k]).rows == size
        }),
{
    let schema = batches[0].schema;
    let all = concatenated(schema, batches);
    let pages = input_pages(batches, size);
    crate::batch::concatenated_wf(schema, batches);
    assert(batches[0].wf());
    assert(schema.fields.len() == batches[0].columns.len());
    pages_join_to_input(all, size);
    pages_are_full(all, size);
    let joined = concatenated(all.schema, pages);
    assert(joined == all);
    assert forall|i: int| 0 <= i < schema.fields.len() implies #[trigger] joined_values(pages, i)
        == joined_values(batches, i) by {
        assert(joined.columns[i].values == joined_values(pages, i));
        assert(all.columns[i].values == joined_values(batches, i));
    }
}

} // verus!
