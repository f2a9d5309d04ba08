//! What a trained index answers: laws from training and loading to searching and
//! remapping.
use vstd::prelude::*;

use crate::batch::{concatenated, total_rows, BatchView};
use crate::compound::{Bound, QueryView};
use crate::datatype::DataTypeView;
use crate::error::ErrorView;
use crate::flat::{CompoundBTreeSubIndex, CompoundFlatIndexMetadata, COMPOUND_IDS_COLUMN};
use crate::index::IndexView;
use crate::pages::{cut, input_pages, pages_for, same_fields};
use crate::scalar::Order;
use crate::stats::BatchStatsView;

verus! {

/// An index with flat pages was trained on these batches.
pub open spec fn trains(
    trainer: &CompoundFlatIndexMetadata,
    types: Seq<DataTypeView>,
    batches: Seq<BatchView>,
    batch_size: u64,
) -> bool {
    let size = crate::train::page_len(batch_size);
    &&& trainer.names().len() == types.len()
    &&& trainer.page_schema() == crate::flat::flat_schema(trainer.names(), types)
    &&& size > 0
    &&& same_fields(batches)
    &&& forall|p: int| 0 <= p < batches.len() ==> (#[trigger] batches[p]).wf()
    &&& total_rows(batches) <= usize::MAX
    &&& pages_for(total_rows(batches), size) <= u32::MAX
    &&& size <= u32::MAX || total_rows(batches) <= u32::MAX
    &&& crate::train::training_run(
        trainer,
        trainer.names(),
        input_pages(batches, size),
    ) is Ok
}

/// The pages that the training stored.
pub open spec fn trained_pages(
    trainer: &CompoundFlatIndexMetadata,
    batches: Seq<BatchView>,
    batch_size: u64,
) -> Seq<BatchView> {
    (crate::train::training_run(
        trainer,
        trainer.names(),
        input_pages(batches, crate::train::page_len(batch_size)),
    )->Ok_0).1
}

/// The index that is loaded from the lookup file of the training.
pub open spec fn loaded_index(
    trainer: &CompoundFlatIndexMetadata,
    types: Seq<DataTypeView>,
    batches: Seq<BatchView>,
    batch_size: u64,
) -> IndexView {
    let names = trainer.names();
    let stats = (crate::train::training_run(
        trainer,
        names,
        input_pages(batches, crate::train::page_len(batch_size)),
    )->Ok_0).0;
    let lookup = crate::stats::lookup_batch(stats, names, types);
    IndexView {
        columns: names,
        lookup: crate::lookup::parsed_lookup(lookup, names.len()),
        batch_size: crate::index::recorded_batch_size(
            crate::train::lookup_file_schema(lookup.schema, batch_size).metadata,
        ),
    }
}

/// The pages with the given numbers.
pub open spec fn numbered_pages(pages: Seq<BatchView>, numbers: Seq<u32>) -> Seq<BatchView> {
    Seq::new(numbers.len(), |k: int| pages[numbers[k] as int])
}

/// The pages that an index looks at for a query: those its statistics do not
/// rule out.
pub open spec fn pages_looked_at(
    index: IndexView,
    pages: Seq<BatchView>,
    query: QueryView,
) -> Seq<BatchView> {
    numbered_pages(
        pages,
        crate::lookup::candidates(index.lookup.page_stats, index.lookup.num_columns(), query),
    )
}

/// What an index answers to a query: what is found in the pages it looks at.
pub open spec fn answer(index: IndexView, pages: Seq<BatchView>, query: QueryView) -> Result<
    Set<u64>,
    ErrorView,
> {
    crate::index::pages_result(
        pages_looked_at(index, pages, query),
        index.columns,
        index.lookup.data_types,
        query,
    )
}

/// The input of a training as one batch.
pub open spec fn whole_input(batches: Seq<BatchView>) -> BatchView {
    concatenated(batches[0].schema, batches)
}

/// The rows of the input are in the order of the index's columns.
pub open spec fn sorted_input(names: Seq<Seq<char>>, batches: Seq<BatchView>) -> bool {
    batches.len() > 0 ==> crate::index::in_key_order(
        crate::index::value_columns(whole_input(batches), names),
        total_rows(batches),
    )
}

/// What the loaded index is: one entry per page, which covers it, for the
/// columns and types that were trained.
proof fn loaded_index_fits(
    trainer: &CompoundFlatIndexMetadata,
    types: Seq<DataTypeView>,
    batches: Seq<BatchView>,
    batch_size: u64,
)
    requires
        trains(trainer, types, batches, batch_size),
    ensures
        ({
            let names = trainer.names();
            let index = loaded_index(trainer, types, batches, batch_size);
            let pages = trained_pages(trainer, batches, batch_size);
            let n = pages_for(total_rows(batches), crate::train::page_len(batch_size));
            &&& index.lookup.data_types == types
            &&& index.batch_size == batch_size
            &&& index.lookup.page_stats.len() == n
            &&& pages.len() == n
            &&& forall|k: int|
                0 <= k < pages.len() ==> {
                    &&& crate::index::page_whole(#[trigger] pages[k], names)
                    &&& crate::index::page_covered(pages[k], names, index.lookup.page_stats[k])
                    &&& index.lookup.page_stats[k].page_number == k
                }
        }),
{
    let names = trainer.names();
    let size = crate::train::page_len(batch_size);
    let input = input_pages(batches, size);
    let index = loaded_index(trainer, types, batches, batch_size);
    let pages = trained_pages(trainer, batches, batch_size);
    crate::train::trained_index_loads(trainer, types, batches, batch_size);
    crate::train::input_pages_wf(batches, size);
    crate::train::training_is_by_page(trainer, names, input);
    assert forall|k: int| 0 <= k < pages.len() implies {
        &&& crate::index::page_whole(#[trigger] pages[k], names)
        &&& crate::index::page_covered(pages[k], names, index.lookup.page_stats[k])
        &&& index.lookup.page_stats[k].page_number == k
    } by {
        let page = input[k];
        assert(page.wf());
        assert(trainer.trained(page) == Ok::<BatchView, ErrorView>(pages[k]));
        crate::pages::pages_are_full(whole_input(batches), size);
        crate::pages::page_bounds(total_rows(batches), size, k);
        assert(cut(whole_input(batches), size)[k].rows <= size);
        assert(page.rows <= u32::MAX);
        crate::train::trained_page_is_covered(
            page,
            crate::flat::flat_schema(names, types),
            names,
            types,
            k as u32,
        );
        assert(index.lookup.page_stats[k] == crate::stats::as_page_stats(
            BatchStatsView {
                column_stats: crate::stats::analysis(page, names),
                page_number: k as u32,
            },
        ));
    }
}

/// An index whose statistics cover its pages answers with what all pages hold.
proof fn answer_is_complete(index: IndexView, pages: Seq<BatchView>, query: QueryView)
    requires
        pages.len() == index.lookup.page_stats.len(),
        index.columns.len() == index.lookup.data_types.len(),
        crate::index::query_fits(query, index.columns.len()),
        forall|k: int|
            0 <= k < pages.len() ==> {
                &&& crate::index::page_whole(#[trigger] pages[k], index.columns)
                &&& crate::index::page_covered(
                    pages[k],
                    index.columns,
                    index.lookup.page_stats[k],
                )
                &&& index.lookup.page_stats[k].page_number == k
            },
    ensures
        answer(index, pages, query) == crate::index::pages_result(
            pages,
            index.columns,
            index.lookup.data_types,
            query,
        ),
{
    let stats = index.lookup.page_stats;
    let n = index.columns.len();
    assert forall|p: int| 0 <= p < stats.len() implies (#[trigger] stats[p]).page_number == p by {
        assert(crate::index::page_whole(pages[p], index.columns));
    }
    crate::index::candidates_are_unpruned(pages, stats, n, query);
    crate::index::candidates_suffice(
        pages,
        stats,
        index.columns,
        index.lookup.data_types,
        query,
    );
    assert(pages_looked_at(index, pages, query) =~= crate::index::unpruned(
        pages,
        stats,
        n,
        query,
    ));
}

/// Where all pages of a batch can be trained on, so can the batch.
proof fn whole_trains(
    batch: BatchView,
    names: Seq<Seq<char>>,
    types: Seq<DataTypeView>,
    size: nat,
)
    requires
        batch.wf(),
        batch.rows > 0,
        size > 0,
        names.len() == types.len(),
        forall|k: int|
            0 <= k < cut(batch, size).len() ==> crate::flat::flat_page(
                crate::flat::flat_schema(names, types),
                names,
                #[trigger] cut(batch, size)[k],
            ) is Ok,
    ensures
        crate::flat::flat_page(crate::flat::flat_schema(names, types), names, batch) is Ok,
{
    let schema = crate::flat::flat_schema(names, types);
    let fields = schema.fields;
    crate::pages::row_is_on_page(batch, size, 0);
    let first = cut(batch, size)[0int / (size as int)];
    assert(crate::flat::flat_page(schema, names, first) is Ok);
    assert forall|x: Seq<char>| #[trigger] first.index_of(x) == batch.index_of(x) by {}
    let missing = crate::stats::is_missing(batch, names);
    crate::first::first_where_spec(names.len(), crate::stats::is_missing(first, names));
    assert forall|c: int| 0 <= c < names.len() implies !(#[trigger] missing(c)) by {
        assert(!crate::stats::is_missing(first, names)(c));
        assert(first.index_of(names[c]) == batch.index_of(names[c]));
    }
    crate::first::first_where_absent(names.len(), missing);
    assert(first.index_of(COMPOUND_IDS_COLUMN@) == batch.index_of(COMPOUND_IDS_COLUMN@));
    assert(batch.column_by_name(COMPOUND_IDS_COLUMN@) is Some);
    let whole = crate::flat::page_columns(batch, names);
    let part = crate::flat::page_columns(first, names);
    assert forall|i: int| 0 <= i < whole.len() implies {
        &&& (#[trigger] whole[i]).values.len() == batch.rows
        &&& whole[i].data_type == part[i].data_type
    } by {
        assert(i < names.len() ==> !missing(i));
        column_on_page(batch, size, 0int / (size as int), column_name(names, i));
    }
    let null = crate::batch::has_forbidden_null(fields, whole);
    assert forall|i: int| 0 <= i < whole.len() implies !(#[trigger] null(i)) by {
        if null(i) {
            let row = choose|row: int|
                0 <= row < whole[i].values.len() && (#[trigger] whole[i].values[row]).is_null();
            let k = row / (size as int);
            let m = row % (size as int);
            crate::pages::row_is_on_page(batch, size, row);
            vstd::arithmetic::div_mod::lemma_fundamental_div_mod(row, size as int);
            assert(i < names.len() ==> !missing(i));
            column_on_page(batch, size, k, column_name(names, i));
            let page = cut(batch, size)[k];
            assert(crate::flat::flat_page(schema, names, page) is Ok);
            let there = crate::flat::page_columns(page, names);
            assert(there[i].values[m] == whole[i].values[row]);
            let other = crate::batch::has_forbidden_null(fields, there);
            crate::first::first_where_spec(there.len(), other);
            assert(other(i));
        }
    }
    crate::first::first_where_absent(whole.len(), null);
    let other = crate::batch::has_other_type(fields, whole);
    crate::first::first_where_spec(part.len(), crate::batch::has_other_type(fields, part));
    assert forall|i: int| 0 <= i < whole.len() implies !(#[trigger] other(i)) by {
        assert(!crate::batch::has_other_type(fields, part)(i));
        assert(whole[i].data_type == part[i].data_type);
    }
    crate::first::first_where_absent(whole.len(), other);
}

/// The name of a column of a flat page.
spec fn column_name(names: Seq<Seq<char>>, i: int) -> Seq<char> {
    if i < names.len() {
        names[i]
    } else {
        COMPOUND_IDS_COLUMN@
    }
}

/// A column on a page of a batch.
proof fn column_on_page(batch: BatchView, size: nat, k: int, name: Seq<char>)
    requires
        batch.wf(),
        size > 0,
        0 <= k < cut(batch, size).len(),
        batch.column_by_name(name) is Some,
    ensures
        ({
            let page = cut(batch, size)[k];
            let whole = batch.column_by_name(name)->0;
            &&& whole.values.len() == batch.rows
            &&& page.column_by_name(name) matches Some(part) && part.data_type == whole.data_type
                && part.values.len() == page.rows && forall|m: int|
                0 <= m < page.rows ==> 0 <= k * size + m < batch.rows && #[trigger] part.values[m]
                    == whole.values[k * size + m]
        }),
{
    let page = cut(batch, size)[k];
    assert(page.index_of(name) == batch.index_of(name));
    crate::first::first_where_spec(
        batch.schema.fields.len(),
        crate::batch::is_named(batch.schema.fields, name),
    );
    let i = batch.index_of(name)->0;
    assert(batch.columns[i].values.len() == batch.rows);
    crate::pages::page_bounds(batch.rows, size, k);
}

/// Row `m` of page `k` is row `k * size + m` of the input.
proof fn trained_page_rows(
    trainer: &CompoundFlatIndexMetadata,
    types: Seq<DataTypeView>,
    batches: Seq<BatchView>,
    batch_size: u64,
    k: int,
)
    requires
        trains(trainer, types, batches, batch_size),
        0 <= k < trained_pages(trainer, batches, batch_size).len(),
    ensures
        ({
            let names = trainer.names();
            let size = crate::train::page_len(batch_size);
            let page = trained_pages(trainer, batches, batch_size)[k];
            let whole = whole_input(batches);
            let a = crate::index::value_columns(page, names);
            let b = crate::index::value_columns(whole, names);
            &&& batches.len() > 0
            &&& whole.wf()
            &&& whole.rows == total_rows(batches) > 0
            &&& k < cut(whole, size).len() == trained_pages(trainer, batches, batch_size).len()
            &&& page.rows == cut(whole, size)[k].rows
            &&& crate::flat::flat_page(
                crate::flat::flat_schema(names, types),
                names,
                cut(whole, size)[k],
            ) == Ok::<BatchView, ErrorView>(page)
            &&& cut(whole, size)[k].wf()
            &&& forall|c: int, m: int|
                0 <= c < names.len() && 0 <= m < page.rows ==> #[trigger] a[c].values[m]
                    == b[c].values[k * size + m]
            &&& forall|m: int|
                0 <= m < page.rows ==> 0 <= k * size + m < whole.rows
                    && #[trigger] crate::index::row_id(page)(m) == crate::index::row_id(whole)(
                    k * size + m,
                )
        }),
{
    let names = trainer.names();
    let size = crate::train::page_len(batch_size);
    let input = input_pages(batches, size);
    let pages = trained_pages(trainer, batches, batch_size);
    let page = pages[k];
    let whole = whole_input(batches);
    let a = crate::index::value_columns(page, names);
    let b = crate::index::value_columns(whole, names);
    crate::train::training_is_by_page(trainer, names, input);
    assert(batches.len() > 0);
    concatenated_is_wf(batches);
    crate::train::input_pages_wf(batches, size);
    let slice = input[k];
    assert(slice.wf());
    assert(trainer.trained(slice) == Ok::<BatchView, ErrorView>(page));
    crate::train::flat_page_columns(slice, names, types);
    crate::pages::page_bounds(whole.rows, size, k);
    assert forall|x: Seq<char>| #[trigger] slice.index_of(x) == whole.index_of(x) by {}
    assert forall|c: int, m: int|
        0 <= c < names.len() && 0 <= m < page.rows implies #[trigger] a[c].values[m]
        == b[c].values[k * size + m] by {
        assert(page.column_by_name(names[c]) == slice.column_by_name(names[c]));
        assert(page.column_by_name(names[c]) is Some);
        assert(slice.index_of(names[c]) == whole.index_of(names[c]));
        column_on_page(whole, size, k, names[c]);
    }
    assert(slice.index_of(COMPOUND_IDS_COLUMN@) == whole.index_of(COMPOUND_IDS_COLUMN@));
    column_on_page(whole, size, k, COMPOUND_IDS_COLUMN@);
}

/// The input as one batch is well formed.
proof fn concatenated_is_wf(batches: Seq<BatchView>)
    requires
        batches.len() > 0,
        same_fields(batches),
        forall|p: int| 0 <= p < batches.len() ==> (#[trigger] batches[p]).wf(),
    ensures
        whole_input(batches).wf(),
{
    crate::batch::concatenated_wf(batches[0].schema, batches);
}

/// Rows in key order have keys in byte order.
proof fn sorted_rows_sorted_keys(
    batch: BatchView,
    names: Seq<Seq<char>>,
    types: Seq<DataTypeView>,
)
    requires
        crate::index::rows_faithful(batch, names, types),
        crate::index::in_key_order(crate::index::value_columns(batch, names), batch.rows),
    ensures
        crate::index::in_byte_order(crate::index::page_rows(batch, names, types)->Ok_0),
{
    let columns = crate::index::value_columns(batch, names);
    let rows = crate::index::page_rows(batch, names, types)->Ok_0;
    assert(rows == crate::rows::converted_rows(types, columns)->Ok_0);
    assert forall|i: int, j: int|
        0 <= i <= j < rows.len() implies crate::compound::bytes_compare(
        #[trigger] rows[i],
        #[trigger] rows[j],
    ) != Order::Greater by {
        assert(crate::compound::bytes_compare(
            rows[i],
            crate::rows::converted_rows(types, columns)->Ok_0[j],
        ) == crate::rows::row_order(columns, i, columns, j, names.len()));
        assert(crate::rows::row_order(columns, i, columns, j, columns.len()) != Order::Greater);
    }
}

/// The pages of a sorted input are sorted.
proof fn sorted_input_sorted_pages(
    trainer: &CompoundFlatIndexMetadata,
    types: Seq<DataTypeView>,
    batches: Seq<BatchView>,
    batch_size: u64,
    k: int,
)
    requires
        trains(trainer, types, batches, batch_size),
        sorted_input(trainer.names(), batches),
        0 <= k < trained_pages(trainer, batches, batch_size).len(),
    ensures
        ({
            let page = trained_pages(trainer, batches, batch_size)[k];
            crate::index::in_key_order(
                crate::index::value_columns(page, trainer.names()),
                page.rows,
            )
        }),
{
    let names = trainer.names();
    let size = crate::train::page_len(batch_size);
    let page = trained_pages(trainer, batches, batch_size)[k];
    let whole = whole_input(batches);
    let a = crate::index::value_columns(page, names);
    let b = crate::index::value_columns(whole, names);
    trained_page_rows(trainer, types, batches, batch_size, k);
    assert forall|i: int, j: int| 0 <= i <= j < page.rows implies #[trigger] crate::rows::row_order(
        a,
        i,
        a,
        j,
        a.len(),
    ) != Order::Greater by {
        let x = k * size + i;
        let y = k * size + j;
        assert(crate::index::row_id(page)(i) == crate::index::row_id(whole)(x));
        assert(crate::index::row_id(page)(j) == crate::index::row_id(whole)(y));
        assert forall|c: int| 0 <= c < names.len() implies (#[trigger] a[c]).values[i].key
            == b[c].values[x].key && a[c].values[j].key == b[c].values[y].key by {
            assert(a[c].values[i] == b[c].values[x]);
            assert(a[c].values[j] == b[c].values[y]);
        }
        crate::rows::same_values_same_order(a, i, b, x, a, j, b, y, names.len());
        assert(crate::rows::row_order(b, x, b, y, b.len()) != Order::Greater);
    }
}

/// A row found by its key in pages of one size is found in those of another.
proof fn found_in_other_pages(
    trainer: &CompoundFlatIndexMetadata,
    types: Seq<DataTypeView>,
    batches: Seq<BatchView>,
    size: u64,
    other: u64,
    lower: Bound<Seq<u8>>,
    upper: Bound<Seq<u8>>,
    k: int,
    m: int,
    id: u64,
)
    requires
        trains(trainer, types, batches, size),
        trains(trainer, types, batches, other),
        trainer.names().len() > 0,
        crate::index::keys_read(
            trained_pages(trainer, batches, size),
            trainer.names(),
            types,
        ),
        crate::index::keys_read(
            trained_pages(trainer, batches, other),
            trainer.names(),
            types,
        ),
        0 <= k < trained_pages(trainer, batches, size).len(),
        crate::index::key_row_found(
            trained_pages(trainer, batches, size)[k],
            trainer.names(),
            types,
            lower,
            upper,
            m,
            id,
        ),
    ensures
        exists|l: int, n: int|
            0 <= l < trained_pages(trainer, batches, other).len()
                && #[trigger] crate::index::key_row_found(
                trained_pages(trainer, batches, other)[l],
                trainer.names(),
                types,
                lower,
                upper,
                n,
                id,
            ),
{
    let names = trainer.names();
    let a = trained_pages(trainer, batches, size);
    let b = trained_pages(trainer, batches, other);
    let step = crate::train::page_len(other) as int;
    assert(crate::index::rows_faithful(a[k], names, types));
    trained_page_rows(trainer, types, batches, size, k);
    let row = k * crate::train::page_len(size) + m;
    assert(crate::index::row_id(a[k])(m) == crate::index::row_id(whole_input(batches))(row));
    crate::pages::row_is_on_page(whole_input(batches), crate::train::page_len(other), row);
    let l = row / step;
    let n = row % step;
    vstd::arithmetic::div_mod::lemma_fundamental_div_mod(row, step);
    assert(step * l == l * step) by (nonlinear_arith);
    loaded_index_fits(trainer, types, batches, other);
    trained_page_rows(trainer, types, batches, other, l);
    assert(crate::index::rows_faithful(b[l], names, types));
    let x = crate::index::value_columns(a[k], names);
    let y = crate::index::value_columns(b[l], names);
    assert forall|c: int| 0 <= c < names.len() implies (#[trigger] x[c]).values[m].key
        == y[c].values[n].key by {
        let z = crate::index::value_columns(whole_input(batches), names);
        assert(x[c].values[m] == z[c].values[row]);
        assert(y[c].values[n] == z[c].values[l * step + n]);
    }
    crate::index::same_values_same_key(a[k], m, b[l], n, names, types);
    assert(crate::index::row_id(a[k])(m) == crate::index::row_id(b[l])(n));
    assert(crate::index::key_row_found(b[l], names, types, lower, upper, n, id));
}

/// What is known where a query is answered: of a search for keys the keys of the
/// pages, and of a lookup of one key that the input was sorted.
pub open spec fn answerable(
    pages: Seq<BatchView>,
    names: Seq<Seq<char>>,
    types: Seq<DataTypeView>,
    batches: Seq<BatchView>,
    query: QueryView,
) -> bool {
    match query {
        QueryView::PrefixLookup { .. } => true,
        QueryView::Range { .. } => names.len() > 0 && crate::index::keys_read(
            pages,
            names,
            types,
        ),
        QueryView::FullKeyLookup(_) => {
            &&& names.len() > 0
            &&& crate::index::keys_read(pages, names, types)
            &&& sorted_input(names, batches)
        },
    }
}

/// Pages whose keys are known answer a search for keys.
proof fn keys_read_is_ok(
    pages: Seq<BatchView>,
    names: Seq<Seq<char>>,
    types: Seq<DataTypeView>,
    query: QueryView,
)
    requires
        crate::index::keys_read(pages, names, types),
        !(query is PrefixLookup),
    ensures
        crate::index::pages_result(pages, names, types, query) is Ok,
    decreases pages.len(),
{
    if pages.len() > 0 {
        let before = pages.drop_last();
        assert forall|p: int| 0 <= p < before.len() implies crate::index::rows_faithful(
            #[trigger] before[p],
            names,
            types,
        ) by {
            assert(before[p] == pages[p]);
        }
        keys_read_is_ok(before, names, types, query);
        assert(pages[pages.len() - 1] == pages.last());
    }
}

/// What is found by key range in the pages of one size is found in those of
/// another.
proof fn ranges_agree(
    trainer: &CompoundFlatIndexMetadata,
    types: Seq<DataTypeView>,
    batches: Seq<BatchView>,
    size: u64,
    other: u64,
    lower: Bound<Seq<u8>>,
    upper: Bound<Seq<u8>>,
)
    requires
        trains(trainer, types, batches, size),
        trains(trainer, types, batches, other),
        trainer.names().len() > 0,
        crate::index::keys_read(
            trained_pages(trainer, batches, size),
            trainer.names(),
            types,
        ),
        crate::index::keys_read(
            trained_pages(trainer, batches, other),
            trainer.names(),
            types,
        ),
    ensures
        crate::index::pages_result(
            trained_pages(trainer, batches, size),
            trainer.names(),
            types,
            QueryView::Range { lower, upper },
        ) == crate::index::pages_result(
            trained_pages(trainer, batches, other),
            trainer.names(),
            types,
            QueryView::Range { lower, upper },
        ),
{
    let names = trainer.names();
    let a = trained_pages(trainer, batches, size);
    let b = trained_pages(trainer, batches, other);
    let query = QueryView::Range { lower, upper };
    let x = crate::index::pages_result(a, names, types, query);
    let y = crate::index::pages_result(b, names, types, query);
    keys_read_is_ok(a, names, types, query);
    keys_read_is_ok(b, names, types, query);
    assert forall|id: u64| x->Ok_0.contains(id) == y->Ok_0.contains(id) by {
        crate::index::range_search_finds_matches(a, names, types, lower, upper, id);
        crate::index::range_search_finds_matches(b, names, types, lower, upper, id);
        if x->Ok_0.contains(id) {
            let (k, m) = choose|k: int, m: int|
                0 <= k < a.len() && #[trigger] crate::index::key_row_found(
                    a[k],
                    names,
                    types,
                    lower,
                    upper,
                    m,
                    id,
                );
            found_in_other_pages(trainer, types, batches, size, other, lower, upper, k, m, id);
        }
        if y->Ok_0.contains(id) {
            let (k, m) = choose|k: int, m: int|
                0 <= k < b.len() && #[trigger] crate::index::key_row_found(
                    b[k],
                    names,
                    types,
                    lower,
                    upper,
                    m,
                    id,
                );
            found_in_other_pages(trainer, types, batches, other, size, lower, upper, k, m, id);
        }
    }
    assert(x->Ok_0 =~= y->Ok_0);
}

/// In sorted pages a key is looked up as the range that holds only it.
proof fn key_lookup_is_a_range(
    trainer: &CompoundFlatIndexMetadata,
    types: Seq<DataTypeView>,
    batches: Seq<BatchView>,
    batch_size: u64,
    key: Seq<u8>,
)
    requires
        trains(trainer, types, batches, batch_size),
        sorted_input(trainer.names(), batches),
        crate::index::keys_read(
            trained_pages(trainer, batches, batch_size),
            trainer.names(),
            types,
        ),
    ensures
        crate::index::pages_result(
            trained_pages(trainer, batches, batch_size),
            trainer.names(),
            types,
            QueryView::FullKeyLookup(key),
        ) == crate::index::pages_result(
            trained_pages(trainer, batches, batch_size),
            trainer.names(),
            types,
            QueryView::Range { lower: Bound::Included(key), upper: Bound::Included(key) },
        ),
{
    let names = trainer.names();
    let pages = trained_pages(trainer, batches, batch_size);
    assert forall|p: int| 0 <= p < pages.len() implies (crate::index::page_rows(
        #[trigger] pages[p],
        names,
        types,
    ) matches Ok(rows) ==> crate::index::in_byte_order(rows)) by {
        sorted_input_sorted_pages(trainer, types, batches, batch_size, p);
        sorted_rows_sorted_keys(pages[p], names, types);
    }
    crate::index::full_key_search_is_a_range(pages, names, types, key);
}

/// A prefix finds the same in pages of any size.
proof fn prefixes_agree(
    trainer: &CompoundFlatIndexMetadata,
    types: Seq<DataTypeView>,
    batches: Seq<BatchView>,
    size: u64,
    other: u64,
    query: QueryView,
)
    requires
        trains(trainer, types, batches, size),
        trains(trainer, types, batches, other),
        query is PrefixLookup,
        crate::index::query_fits(query, trainer.names().len()),
    ensures
        ({
            let a = crate::index::pages_result(
                trained_pages(trainer, batches, size),
                trainer.names(),
                types,
                query,
            );
            let b = crate::index::pages_result(
                trained_pages(trainer, batches, other),
                trainer.names(),
                types,
                query,
            );
            a == b && a is Ok
        }),
{
    let names = trainer.names();
    let a = trained_pages(trainer, batches, size);
    let b = trained_pages(trainer, batches, other);
    let m = crate::train::page_len(size);
    let n = crate::train::page_len(other);
    loaded_index_fits(trainer, types, batches, size);
    loaded_index_fits(trainer, types, batches, other);
    if let QueryView::PrefixLookup { prefix, range } = query {
        if total_rows(batches) == 0 {
            crate::pages::pages_for_bounds(0, m);
            crate::pages::pages_for_bounds(0, n);
            assert(a =~= b);
        } else {
            let whole = whole_input(batches);
            concatenated_is_wf(batches);
            crate::train::training_is_by_page(trainer, names, input_pages(batches, m));
            assert forall|k: int| 0 <= k < cut(whole, m).len() implies crate::flat::flat_page(
                crate::flat::flat_schema(names, types),
                names,
                #[trigger] cut(whole, m)[k],
            ) is Ok by {
                assert(input_pages(batches, m)[k] == cut(whole, m)[k]);
            }
            whole_trains(whole, names, types, m);
            crate::train::trained_pages_are_stored(trainer, types, whole, m);
            crate::train::trained_pages_are_stored(trainer, types, whole, n);
            crate::train::search_ignores_page_size(names, types, whole, m, n, prefix, range);
        }
        crate::index::prefix_search_finds_matches(a, names, types, prefix, range, 0);
    }
}

/// A trained index, once loaded, answers every query with what all its pages
/// hold, though it looks only at those that its statistics do not rule out; and
/// the answer is the same whatever the page size it was trained with.
pub proof fn trained_index_answers(
    trainer: &CompoundFlatIndexMetadata,
    types: Seq<DataTypeView>,
    batches: Seq<BatchView>,
    size: u64,
    other: u64,
    query: QueryView,
)
    requires
        trains(trainer, types, batches, size),
        trains(trainer, types, batches, other),
        crate::index::query_fits(query, trainer.names().len()),
    ensures
        ({
            let names = trainer.names();
            let index = loaded_index(trainer, types, batches, size);
            let pages = trained_pages(trainer, batches, size);
            let other_index = loaded_index(trainer, types, batches, other);
            let other_pages = trained_pages(trainer, batches, other);
            &&& index.columns == names
            &&& index.lookup.data_types == types
            &&& index.batch_size == size
            &&& index.lookup.page_stats.len() == pages.len()
            &&& answer(index, pages, query) == crate::index::pages_result(
                pages,
                names,
                types,
                query,
            )
            &&& answerable(pages, names, types, batches, query) && answerable(
                other_pages,
                names,
                types,
                batches,
                query,
            ) ==> answer(index, pages, query) is Ok && answer(index, pages, query) == answer(
                other_index,
                other_pages,
                query,
            )
        }),
{
    let names = trainer.names();
    let index = loaded_index(trainer, types, batches, size);
    let pages = trained_pages(trainer, batches, size);
    let other_index = loaded_index(trainer, types, batches, other);
    let other_pages = trained_pages(trainer, batches, other);
    loaded_index_fits(trainer, types, batches, size);
    loaded_index_fits(trainer, types, batches, other);
    answer_is_complete(index, pages, query);
    answer_is_complete(other_index, other_pages, query);
    if answerable(pages, names, types, batches, query) && answerable(
        other_pages,
        names,
        types,
        batches,
        query,
    ) {
        match query {
            QueryView::PrefixLookup { .. } => {
                prefixes_agree(trainer, types, batches, size, other, query);
            },
            QueryView::Range { lower, upper } => {
                keys_read_is_ok(pages, names, types, query);
                ranges_agree(trainer, types, batches, size, other, lower, upper);
            },
            QueryView::FullKeyLookup(key) => {
                keys_read_is_ok(pages, names, types, query);
                key_lookup_is_a_range(trainer, types, batches, size, key);
                key_lookup_is_a_range(trainer, types, batches, other, key);
                ranges_agree(
                    trainer,
                    types,
                    batches,
                    size,
                    other,
                    Bound::Included(key),
                    Bound::Included(key),
                );
            },
        }
    }
}

/// A trained page has its row ids last, and its values before them.
proof fn trained_page_is_stored(
    trainer: &CompoundFlatIndexMetadata,
    types: Seq<DataTypeView>,
    batches: Seq<BatchView>,
    batch_size: u64,
    k: int,
)
    requires
        trains(trainer, types, batches, batch_size),
        !trainer.names().contains(COMPOUND_IDS_COLUMN@),
        0 <= k < trained_pages(trainer, batches, batch_size).len(),
    ensures
        crate::index::stored_page(
            trained_pages(trainer, batches, batch_size)[k],
            trainer.names(),
        ),
{
    let names = trainer.names();
    let size = crate::train::page_len(batch_size);
    let page = trained_pages(trainer, batches, batch_size)[k];
    let whole = whole_input(batches);
    let slice = cut(whole, size)[k];
    let schema = crate::flat::flat_schema(names, types);
    let fields = schema.fields;
    let columns = crate::flat::page_columns(slice, names);
    trained_page_rows(trainer, types, batches, batch_size, k);
    crate::train::flat_page_columns(slice, names, types);
    crate::pages::page_bounds(whole.rows, size, k);
    let null = crate::batch::has_forbidden_null(fields, columns);
    let other = crate::batch::has_other_type(fields, columns);
    crate::first::first_where_spec(columns.len(), null);
    crate::first::first_where_spec(columns.len(), other);
    assert forall|i: int| #![trigger page.columns[i]] 0 <= i < page.columns.len() implies {
        &&& page.columns[i].data_type == fields[i].data_type
        &&& page.columns[i].values.len() == page.rows
        &&& page.columns[i].typed()
        &&& !fields[i].nullable ==> !page.columns[i].has_null()
    } by {
        assert(!null(i) && !other(i));
        let name = column_name(names, i);
        let named = crate::batch::is_named(slice.schema.fields, name);
        assert(i < names.len() ==> page.column_by_name(names[i]) is Some);
        crate::first::first_where_spec(slice.schema.fields.len(), named);
        assert(slice.columns[slice.index_of(name)->0] == page.columns[i]);
    }
    assert(page.columns.last() == page.columns[names.len() as int]);
    let ids = crate::batch::is_named(fields, COMPOUND_IDS_COLUMN@);
    assert forall|j: int| 0 <= j < names.len() implies !(#[trigger] ids(j)) by {
        assert(names.contains(names[j]));
    }
    assert(ids(names.len() as int));
    crate::first::first_where_found(fields.len(), ids, names.len() as int);
    assert forall|c: int| 0 <= c < names.len() implies page.index_of(#[trigger] names[c])->0
        < page.columns.len() - 1 by {
        let named = crate::batch::is_named(fields, names[c]);
        crate::first::first_where_spec(fields.len(), named);
        assert(named(c));
    }
}

/// What remapping keeps of a sorted page is sorted.
proof fn remapped_page_is_sorted(
    page: BatchView,
    names: Seq<Seq<char>>,
    mapping: Map<u64, Option<u64>>,
)
    requires
        crate::index::stored_page(page, names),
        crate::index::in_key_order(crate::index::value_columns(page, names), page.rows),
    ensures
        ({
            let new = crate::flat::remapped_page(page, mapping);
            crate::index::in_key_order(crate::index::value_columns(new, names), new.rows)
        }),
{
    let new = crate::flat::remapped_page(page, mapping);
    let ids = page.columns.last().values;
    let kept = crate::flat::kept_rows(ids, mapping);
    let a = crate::index::value_columns(new, names);
    let b = crate::index::value_columns(page, names);
    assert(page.columns[page.columns.len() - 1] == page.columns.last());
    crate::index::kept_values(page, names, mapping);
    crate::flat::remap_keeps_rows(ids, mapping);
    assert forall|i: int, j: int| 0 <= i <= j < new.rows implies #[trigger] crate::rows::row_order(
        a,
        i,
        a,
        j,
        a.len(),
    ) != Order::Greater by {
        let x = kept[i] as int;
        let y = kept[j] as int;
        assert forall|c: int| 0 <= c < names.len() implies (#[trigger] a[c]).values[i].key
            == b[c].values[x].key && a[c].values[j].key == b[c].values[y].key by {
            assert(new.column_by_name(names[c]) is Some);
        }
        crate::rows::same_values_same_order(a, i, b, x, a, j, b, y, names.len());
        assert(crate::rows::row_order(b, x, b, y, b.len()) != Order::Greater);
    }
}

/// No row of the pages is deleted by the mapping.
pub open spec fn deletes_nothing(pages: Seq<BatchView>, mapping: Map<u64, Option<u64>>) -> bool {
    forall|p: int, row: int|
        0 <= p < pages.len() && 0 <= row < pages[p].rows ==> crate::flat::remapped_id(
            mapping,
            #[trigger] crate::index::row_id(pages[p])(row),
        ) is Some
}

/// A page of which nothing is deleted keeps its number of rows.
proof fn kept_whole(ids: Seq<crate::scalar::ScalarView>, mapping: Map<u64, Option<u64>>)
    requires
        forall|row: int|
            0 <= row < ids.len() ==> crate::flat::remapped_id(
                mapping,
                crate::batch::u64_of(#[trigger] ids[row]),
            ) is Some,
    ensures
        crate::flat::kept_rows(ids, mapping).len() == ids.len(),
    decreases ids.len(),
{
    if ids.len() > 0 {
        let before = ids.drop_last();
        assert forall|row: int| 0 <= row < before.len() implies crate::flat::remapped_id(
            mapping,
            crate::batch::u64_of(#[trigger] before[row]),
        ) is Some by {
            assert(before[row] == ids[row]);
        }
        kept_whole(before, mapping);
        assert(ids[ids.len() - 1] == ids.last());
    }
}

/// After remapping, the index that is loaded with the lookup file as it was
/// answers every query with the new ids of the rows that it found before, except
/// for those that were deleted. It has as many pages, and where nothing was
/// deleted each page has as many rows, so that the pages lie where they were.
pub proof fn remapped_index_answers(
    trainer: &CompoundFlatIndexMetadata,
    types: Seq<DataTypeView>,
    batches: Seq<BatchView>,
    batch_size: u64,
    mapping: Map<u64, Option<u64>>,
    query: QueryView,
)
    requires
        trains(trainer, types, batches, batch_size),
        !trainer.names().contains(COMPOUND_IDS_COLUMN@),
        crate::index::query_fits(query, trainer.names().len()),
        answerable(
            trained_pages(trainer, batches, batch_size),
            trainer.names(),
            types,
            batches,
            query,
        ),
        answerable(
            crate::index::remapped_pages(
                trained_pages(trainer, batches, batch_size),
                mapping,
            ),
            trainer.names(),
            types,
            batches,
            query,
        ),
    ensures
        ({
            let index = loaded_index(trainer, types, batches, batch_size);
            let pages = trained_pages(trainer, batches, batch_size);
            let new_pages = crate::index::remapped_pages(pages, mapping);
            &&& index.lookup.page_stats.len() == pages.len() == new_pages.len()
            &&& crate::index::results_mapped(
                answer(index, pages, query),
                answer(index, new_pages, query),
                mapping,
            )
            &&& deletes_nothing(pages, mapping) ==> forall|p: int|
                0 <= p < pages.len() ==> (#[trigger] new_pages[p]).rows == pages[p].rows
        }),
{
    let names = trainer.names();
    let index = loaded_index(trainer, types, batches, batch_size);
    let pages = trained_pages(trainer, batches, batch_size);
    let new_pages = crate::index::remapped_pages(pages, mapping);
    loaded_index_fits(trainer, types, batches, batch_size);
    assert forall|p: int| 0 <= p < pages.len() implies crate::index::stored_page(
        #[trigger] pages[p],
        names,
    ) by {
        trained_page_is_stored(trainer, types, batches, batch_size, p);
    }
    answer_is_complete(index, pages, query);
    assert forall|p: int| 0 <= p < new_pages.len() implies {
        &&& crate::index::page_whole(#[trigger] new_pages[p], names)
        &&& crate::index::page_covered(new_pages[p], names, index.lookup.page_stats[p])
        &&& index.lookup.page_stats[p].page_number == p
    } by {
        assert(crate::index::stored_page(pages[p], names));
        crate::index::kept_values(pages[p], names, mapping);
        crate::index::remap_keeps_cover(
            pages[p],
            names,
            index.lookup.page_stats[p],
            mapping,
        );
    }
    answer_is_complete(index, new_pages, query);
    match query {
        QueryView::PrefixLookup { prefix, range } => {
            crate::index::remapped_index_search(pages, names, types, prefix, range, mapping);
        },
        QueryView::Range { lower, upper } => {
            remapped_keys(pages, names, types, lower, upper, mapping);
        },
        QueryView::FullKeyLookup(key) => {
            key_lookup_is_a_range(trainer, types, batches, batch_size, key);
            assert forall|p: int| 0 <= p < new_pages.len() implies (crate::index::page_rows(
                #[trigger] new_pages[p],
                names,
                types,
            ) matches Ok(rows) ==> crate::index::in_byte_order(rows)) by {
                assert(crate::index::stored_page(pages[p], names));
                sorted_input_sorted_pages(trainer, types, batches, batch_size, p);
                remapped_page_is_sorted(pages[p], names, mapping);
                sorted_rows_sorted_keys(new_pages[p], names, types);
            }
            crate::index::full_key_search_is_a_range(new_pages, names, types, key);
            remapped_keys(
                pages,
                names,
                types,
                Bound::Included(key),
                Bound::Included(key),
                mapping,
            );
        },
    }
    if deletes_nothing(pages, mapping) {
        assert forall|p: int| 0 <= p < pages.len() implies (#[trigger] new_pages[p]).rows
            == pages[p].rows by {
            let page = pages[p];
            assert(crate::index::stored_page(page, names));
            let ids = page.columns.last().values;
            assert(page.columns[page.columns.len() - 1] == page.columns.last());
            assert forall|row: int| 0 <= row < ids.len() implies crate::flat::remapped_id(
                mapping,
                crate::batch::u64_of(#[trigger] ids[row]),
            ) is Some by {
                assert(crate::index::row_id(pages[p])(row) == crate::batch::u64_of(ids[row]));
            }
            kept_whole(ids, mapping);
        }
    }
}

/// Remapping maps what a key range finds in pages whose keys are known before
/// and after.
proof fn remapped_keys(
    pages: Seq<BatchView>,
    names: Seq<Seq<char>>,
    types: Seq<DataTypeView>,
    lower: Bound<Seq<u8>>,
    upper: Bound<Seq<u8>>,
    mapping: Map<u64, Option<u64>>,
)
    requires
        names.len() > 0,
        forall|p: int|
            0 <= p < pages.len() ==> crate::index::stored_page(#[trigger] pages[p], names),
        crate::index::keys_read(pages, names, types),
        crate::index::keys_read(
            crate::index::remapped_pages(pages, mapping),
            names,
            types,
        ),
    ensures
        ({
            let query = QueryView::Range { lower, upper };
            crate::index::results_mapped(
                crate::index::pages_result(pages, names, types, query),
                crate::index::pages_result(
                    crate::index::remapped_pages(pages, mapping),
                    names,
                    types,
                    query,
                ),
                mapping,
            )
        }),
{
    let query = QueryView::Range { lower, upper };
    let new_pages = crate::index::remapped_pages(pages, mapping);
    assert forall|p: int| 0 <= p < pages.len() implies crate::index::results_mapped(
        crate::index::page_result(#[trigger] pages[p], names, types, query),
        crate::index::page_result(
            crate::flat::remapped_page(pages[p], mapping),
            names,
            types,
            query,
        ),
        mapping,
    ) by {
        assert(crate::index::rows_faithful(new_pages[p], names, types));
        crate::index::remapped_range(pages[p], names, types, lower, upper, mapping);
    }
    crate::index::remapped_search(pages, names, types, query, mapping);
}

} // verus!
