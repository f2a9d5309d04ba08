//! The compound index: loading, searching and maintaining it.
use std::collections::HashMap;

use vstd::prelude::*;

use lance_core::utils::mask::RowAddrTreeMap;
use roaring::RoaringBitmap;

use crate::batch::{BatchView, Column, ColumnView, RecordBatch};
use crate::compound::{Bound, CompoundKey, CompoundSargableQuery, QueryView};
use crate::datatype::{clone_types, DataType, DataTypeView, Schema};
use crate::error::{Error, ErrorOf, ErrorView};
use crate::flat::{CompoundBTreeSubIndex, CompoundFlatIndexMetadata, COMPOUND_IDS_COLUMN};
use crate::lookup::{CompoundBTreeLookup, LookupView, PageStatsView};
use crate::row_set::{insert_bit, insert_row, new_bitmap, new_row_set, union_rows};
use crate::rows::create_compound_row_converter;
use crate::scalar::{Order, ScalarValue, ScalarView};
use crate::text::{clone_texts, concat2, concat3, decimal, parse_u64};

verus! {

/// Default batch size for compound index pages.
pub const DEFAULT_COMPOUND_BATCH_SIZE: u64 = 4096;

/// Metadata key for batch size in the lookup file schema.
pub const COMPOUND_BATCH_SIZE_META_KEY: &'static str = "batch_size";

/// `r` is a set of rows, or an error, as `v` says.
pub open spec fn found(
    r: Result<RowAddrTreeMap, Error>,
    v: Result<Set<u64>, ErrorView>,
) -> bool {
    match (r, v) {
        (Ok(m), Ok(s)) => crate::row_set::row_addrs(m) == s,
        (Err(e), Err(y)) => e@ == y,
        _ => false,
    }
}

/// A page that can be searched: its row ids, if it has any, are 64-bit numbers.
/// A null among them reads as zero.
pub open spec fn searchable(batch: BatchView) -> bool {
    batch.column_by_name(COMPOUND_IDS_COLUMN@) matches Some(c) ==> c.data_type is UInt64
}

/// The row ids of a page.
pub open spec fn row_id(batch: BatchView) -> spec_fn(int) -> u64 {
    |row: int|
        crate::batch::u64_of((batch.column_by_name(COMPOUND_IDS_COLUMN@)->0).values[row])
}

pub open spec fn no_row_ids() -> ErrorView {
    crate::error::index_error("Missing _rowid column in page"@)
}

/// Whether the first `k` columns of a row equal the first `k` values of the
/// prefix, where a null in the prefix, of whatever type, stands for any null of
/// the column; an error for the first column looked at that the page does not
/// have.
pub open spec fn prefix_matches(
    batch: BatchView,
    names: Seq<Seq<char>>,
    prefix: Seq<ScalarView>,
    row: int,
    k: nat,
) -> Result<bool, ErrorView>
    decreases k,
{
    if k == 0 {
        Ok(true)
    } else {
        match prefix_matches(batch, names, prefix, row, (k - 1) as nat) {
            Ok(true) => match batch.column_by_name(names[k - 1]) {
                Some(c) => Ok(crate::scalar::is_wanted(c.values[row], prefix[k - 1])),
                None => Err(missing_column(names[k - 1])),
            },
            other => other,
        }
    }
}

pub open spec fn missing_column(name: Seq<char>) -> ErrorView {
    crate::error::index_error("Missing column "@ + name + " in page"@)
}

/// Whether a column of a row lies in a range.
pub open spec fn range_matches(
    batch: BatchView,
    name: Seq<char>,
    row: int,
    lower: Bound<ScalarView>,
    upper: Bound<ScalarView>,
) -> Result<bool, ErrorView> {
    match batch.column_by_name(name) {
        Some(c) => Ok(crate::compound::in_range(c.values[row], lower, upper)),
        None => Err(missing_column(name)),
    }
}

/// Whether a row matches a prefix and a range on the column after it.
pub open spec fn row_matches(
    batch: BatchView,
    names: Seq<Seq<char>>,
    prefix: Seq<ScalarView>,
    range: Option<(Bound<ScalarView>, Bound<ScalarView>)>,
    row: int,
) -> Result<bool, ErrorView> {
    match prefix_matches(batch, names, prefix, row, prefix.len()) {
        Ok(true) => match range {
            Some((lower, upper)) => if prefix.len() < names.len() {
                range_matches(batch, names[prefix.len() as int], row, lower, upper)
            } else {
                Ok(true)
            },
            None => Ok(true),
        },
        other => other,
    }
}

pub open spec fn row_fails(
    batch: BatchView,
    names: Seq<Seq<char>>,
    prefix: Seq<ScalarView>,
    range: Option<(Bound<ScalarView>, Bound<ScalarView>)>,
) -> spec_fn(int) -> bool {
    |row: int| row_matches(batch, names, prefix, range, row) is Err
}

pub open spec fn row_hits(
    batch: BatchView,
    names: Seq<Seq<char>>,
    prefix: Seq<ScalarView>,
    range: Option<(Bound<ScalarView>, Bound<ScalarView>)>,
) -> spec_fn(int) -> bool {
    |row: int| row_matches(batch, names, prefix, range, row) == Ok::<bool, ErrorView>(true)
}

/// What a prefix lookup finds in a page: the ids of the rows that match, or the
/// error of the first row that cannot be decided.
pub open spec fn prefix_result(
    batch: BatchView,
    names: Seq<Seq<char>>,
    prefix: Seq<ScalarView>,
    range: Option<(Bound<ScalarView>, Bound<ScalarView>)>,
) -> Result<Set<u64>, ErrorView> {
    if batch.column_by_name(COMPOUND_IDS_COLUMN@) is None {
        Err(no_row_ids())
    } else {
        match crate::first::first_where(batch.rows, row_fails(batch, names, prefix, range)) {
            Some(row) => Err(row_matches(batch, names, prefix, range, row)->Err_0),
            None => Ok(
                crate::row_set::collected(
                    batch.rows,
                    row_hits(batch, names, prefix, range),
                    row_id(batch),
                ),
            ),
        }
    }
}

/// The value columns of a page.
pub open spec fn value_columns(batch: BatchView, names: Seq<Seq<char>>) -> Seq<ColumnView> {
    Seq::new(names.len(), |c: int| batch.column_by_name(names[c])->0)
}

/// The rows of a page in the row format, or why it does not have them.
pub open spec fn page_rows(
    batch: BatchView,
    names: Seq<Seq<char>>,
    types: Seq<DataTypeView>,
) -> Result<Seq<Seq<u8>>, ErrorView> {
    if crate::first::first_where(names.len(), crate::stats::is_missing(batch, names)) is Some {
        Err(crate::error::index_error("Missing value columns in page"@))
    } else {
        match crate::rows::converted_rows(types, value_columns(batch, names)) {
            Err(e) => Err(crate::error::index_error("Failed to convert page to rows: "@ + e)),
            Ok(rows) => if batch.column_by_name(COMPOUND_IDS_COLUMN@) is None {
                Err(no_row_ids())
            } else {
                Ok(rows)
            },
        }
    }
}

/// The value columns of a page can be turned into rows.
pub open spec fn rows_addressable(batch: BatchView, names: Seq<Seq<char>>) -> bool {
    forall|c: int|
        0 <= c < names.len() ==> (batch.column_by_name(#[trigger] names[c]) matches Some(col)
            ==> crate::rows::addressable(col))
}

/// A page that has all its columns, of the index's types, and values that the
/// row format can take.
pub open spec fn page_regular(
    batch: BatchView,
    names: Seq<Seq<char>>,
    types: Seq<DataTypeView>,
) -> bool {
    &&& page_whole(batch, names)
    &&& names.len() == types.len()
    &&& forall|c: int|
        0 <= c < names.len() ==> (batch.column_by_name(#[trigger] names[c])->0).data_type
            == types[c] && crate::rows::encodable(batch.column_by_name(names[c])->0)
}

/// The rows of a page are as many as the page has, and compare with the rows of
/// any other columns as their values do.
pub open spec fn rows_faithful(
    batch: BatchView,
    names: Seq<Seq<char>>,
    types: Seq<DataTypeView>,
) -> bool {
    &&& page_rows(batch, names, types) is Ok
    &&& page_rows(batch, names, types)->Ok_0.len() == (if names.len() == 0 {
        0
    } else {
        batch.rows
    })
    &&& forall|other: Seq<ColumnView>, i: int, j: int|
        #![trigger crate::rows::converted_rows(types, other)->Ok_0[j], page_rows(batch, names, types)->Ok_0[i]]
        crate::rows::converted_rows(types, other) is Ok && 0 <= i < page_rows(
            batch,
            names,
            types,
        )->Ok_0.len() && 0 <= j < crate::rows::converted_rows(types, other)->Ok_0.len()
            ==> crate::compound::bytes_compare(
            page_rows(batch, names, types)->Ok_0[i],
            crate::rows::converted_rows(types, other)->Ok_0[j],
        ) == crate::rows::row_order(value_columns(batch, names), i, other, j, names.len())
}

pub open spec fn row_is(rows: Seq<Seq<u8>>, key: Seq<u8>) -> spec_fn(int) -> bool {
    |row: int| rows[row] == key
}

pub open spec fn row_exceeds(rows: Seq<Seq<u8>>, key: Seq<u8>) -> spec_fn(int) -> bool {
    |row: int| crate::compound::bytes_compare(rows[row], key) == Order::Greater
}

/// Where a scan for a key ends: at the first greater row, or after the last.
pub open spec fn scan_end(rows: Seq<Seq<u8>>, key: Seq<u8>) -> nat {
    match crate::first::first_where(rows.len(), row_exceeds(rows, key)) {
        Some(row) => row as nat,
        None => rows.len(),
    }
}

/// What a full key lookup finds in a page: the rows with the key, up to the
/// first row with a greater one.
pub open spec fn full_key_result(
    batch: BatchView,
    names: Seq<Seq<char>>,
    types: Seq<DataTypeView>,
    key: Seq<u8>,
) -> Result<Set<u64>, ErrorView> {
    match page_rows(batch, names, types) {
        Err(e) => Err(e),
        Ok(rows) => Ok(
            crate::row_set::collected(scan_end(rows, key), row_is(rows, key), row_id(batch)),
        ),
    }
}

pub open spec fn row_between(
    rows: Seq<Seq<u8>>,
    lower: Bound<Seq<u8>>,
    upper: Bound<Seq<u8>>,
) -> spec_fn(int) -> bool {
    |row: int| crate::compound::key_in_range(rows[row], lower, upper)
}

/// What a key range finds in a page.
pub open spec fn key_range_result(
    batch: BatchView,
    names: Seq<Seq<char>>,
    types: Seq<DataTypeView>,
    lower: Bound<Seq<u8>>,
    upper: Bound<Seq<u8>>,
) -> Result<Set<u64>, ErrorView> {
    match page_rows(batch, names, types) {
        Err(e) => Err(e),
        Ok(rows) => Ok(
            crate::row_set::collected(
                rows.len(),
                row_between(rows, lower, upper),
                row_id(batch),
            ),
        ),
    }
}

/// What a query finds in a page.
pub open spec fn page_result(
    batch: BatchView,
    names: Seq<Seq<char>>,
    types: Seq<DataTypeView>,
    query: QueryView,
) -> Result<Set<u64>, ErrorView> {
    match query {
        QueryView::FullKeyLookup(key) => full_key_result(batch, names, types, key),
        QueryView::PrefixLookup { prefix, range } => prefix_result(batch, names, prefix, range),
        QueryView::Range { lower, upper } => key_range_result(batch, names, types, lower, upper),
    }
}

/// A prefix that does not name more columns than the index has.
pub open spec fn query_fits(query: QueryView, n: nat) -> bool {
    query matches QueryView::PrefixLookup { prefix, .. } ==> prefix.len() <= n
}

/// The rows of every page are known, as a search for keys comes to know them.
pub open spec fn keys_read(
    pages: Seq<BatchView>,
    names: Seq<Seq<char>>,
    types: Seq<DataTypeView>,
) -> bool {
    forall|p: int| 0 <= p < pages.len() ==> rows_faithful(#[trigger] pages[p], names, types)
}

/// What a query finds in several pages: the union, or the first error.
pub open spec fn pages_result(
    pages: Seq<BatchView>,
    names: Seq<Seq<char>>,
    types: Seq<DataTypeView>,
    query: QueryView,
) -> Result<Set<u64>, ErrorView>
    decreases pages.len(),
{
    if pages.len() == 0 {
        Ok(Set::empty())
    } else {
        match pages_result(pages.drop_last(), names, types, query) {
            Err(e) => Err(e),
            Ok(s) => match page_result(pages.last(), names, types, query) {
                Ok(t) => Ok(s.union(t)),
                Err(e) => Err(e),
            },
        }
    }
}

/// The fragment that a row id belongs to.
pub open spec fn fragment_of(id: u64) -> u32 {
    (id >> 32) as u32
}

/// The fragments of the first `n` rows.
pub open spec fn fragments_of(n: nat, id: spec_fn(int) -> u64) -> Set<u32>
    decreases n,
{
    if n == 0 {
        Set::empty()
    } else {
        fragments_of((n - 1) as nat, id).insert(fragment_of(id(n - 1)))
    }
}

/// The fragments of all rows of the pages, or the error for a page without row
/// ids.
pub open spec fn included_fragments(pages: Seq<BatchView>) -> Result<Set<u32>, ErrorView>
    decreases pages.len(),
{
    if pages.len() == 0 {
        Ok(Set::empty())
    } else {
        match included_fragments(pages.drop_last()) {
            Err(e) => Err(e),
            Ok(s) => if pages.last().column_by_name(COMPOUND_IDS_COLUMN@) is None {
                Err(crate::error::index_error("Missing _rowid column"@))
            } else {
                Ok(s.union(fragments_of(pages.last().rows, row_id(pages.last()))))
            },
        }
    }
}

/// A fragment is among those of the rows exactly when a row is in it.
pub proof fn fragments_of_contains(n: nat, id: spec_fn(int) -> u64, fragment: u32)
    ensures
        fragments_of(n, id).contains(fragment) <==> exists|row: int|
            0 <= row < n && fragment_of(#[trigger] id(row)) == fragment,
    decreases n,
{
    if n > 0 {
        fragments_of_contains((n - 1) as nat, id, fragment);
        if fragment_of(id(n - 1)) == fragment {
            assert(fragments_of(n, id).contains(fragment));
        } else if fragments_of(n, id).contains(fragment) {
            let row = choose|row: int|
                0 <= row < n - 1 && fragment_of(#[trigger] id(row)) == fragment;
            assert(0 <= row < n && fragment_of(id(row)) == fragment);
        }
    }
}

/// The page size recorded in the metadata of a lookup file.
pub open spec fn recorded_batch_size(metadata: Map<Seq<char>, Seq<char>>) -> u64 {
    if metadata.contains_key(COMPOUND_BATCH_SIZE_META_KEY@) {
        match crate::text::parsed_u64(metadata[COMPOUND_BATCH_SIZE_META_KEY@]) {
            Some(n) => n,
            None => DEFAULT_COMPOUND_BATCH_SIZE,
        }
    } else {
        DEFAULT_COMPOUND_BATCH_SIZE
    }
}

/// Compound B-tree index for multi-column queries.
#[derive(Debug)]
pub struct CompoundBTreeIndex {
    columns: Vec<String>,
    data_types: Vec<DataType>,
    page_lookup: CompoundBTreeLookup,
    sub_index: CompoundFlatIndexMetadata,
    batch_size: u64,
}

#[verifier::ext_equal]
pub struct IndexView {
    pub columns: Seq<Seq<char>>,
    pub lookup: LookupView,
    pub batch_size: u64,
}

impl View for CompoundBTreeIndex {
    type V = IndexView;

    closed spec fn view(&self) -> IndexView {
        IndexView {
            columns: crate::text::texts(self.columns@),
            lookup: self.page_lookup@,
            batch_size: self.batch_size,
        }
    }
}

/// The rows that a search found.
#[derive(Debug)]
pub enum SearchResult {
    /// Exactly the matching rows.
    Exact(RowAddrTreeMap),
}

/// Cache key for compound index pages.
#[derive(Debug, Clone, Copy, PartialEq, Eq, Structural)]
pub struct CompoundBTreePageKey {
    pub page_number: u32,
}

impl CompoundBTreePageKey {
    pub open spec fn key_text(self) -> Seq<char> {
        "compound-page-"@ + crate::text::decimal_text(self.page_number as nat)
    }

    /// The text of the key.
    pub fn key(&self) -> (r: String)
        ensures
            r@ == self.key_text(),
    {
        concat2("compound-page-", decimal(self.page_number as u64).as_str())
    }
}

/// Different pages have different cache keys.
pub proof fn page_keys_differ(a: CompoundBTreePageKey, b: CompoundBTreePageKey)
    requires
        a != b,
    ensures
        a.key_text() != b.key_text(),
{
    let head = "compound-page-"@;
    if a.key_text() == b.key_text() {
        assert(a.key_text().skip(head.len() as int) =~= crate::text::decimal_text(
            a.page_number as nat,
        ));
        assert(b.key_text().skip(head.len() as int) =~= crate::text::decimal_text(
            b.page_number as nat,
        ));
        crate::text::decimal_text_injective(a.page_number as nat, b.page_number as nat);
    }
}

/// Cached compound index page data.
#[derive(Debug)]
pub struct CachedCompoundPage(RecordBatch);

impl CachedCompoundPage {
    pub closed spec fn page(&self) -> BatchView {
        self.0@
    }

    pub fn new(batch: RecordBatch) -> (r: CachedCompoundPage)
        ensures
            r.page() == batch@,
    {
        CachedCompoundPage(batch)
    }

    pub fn into_inner(self) -> (r: RecordBatch)
        ensures
            r@ == self.page(),
    {
        self.0
    }

    pub fn batch(&self) -> (r: &RecordBatch)
        ensures
            r@ == self.page(),
    {
        &self.0
    }

    /// About how many bytes the page takes: eight per value.
    pub fn approximate_size(&self) -> (r: usize)
        requires
            self.page().rows * self.page().columns.len() * 8 <= usize::MAX,
        ensures
            r == self.page().rows * self.page().columns.len() * 8,
    {
        let rows = self.0.num_rows();
        let columns = self.0.num_columns();
        assert(rows * columns <= rows * columns * 8 && 0 <= rows * columns) by (nonlinear_arith)
            requires
                rows >= 0,
                columns >= 0,
        ;
        rows * columns * 8
    }
}

/// What the statistics of an index show.
#[derive(Debug)]
pub struct IndexStatistics {
    pub index_type: String,
    pub columns: Vec<String>,
    pub num_pages: usize,
}

impl CompoundBTreeIndex {
    #[verifier::type_invariant]
    spec fn inv(self) -> bool {
        &&& self.page_lookup@.complete()
        &&& crate::datatype::types(self.data_types@) == self.page_lookup@.data_types
        &&& self.columns@.len() == self.data_types@.len()
        &&& self.sub_index.names() == crate::text::texts(self.columns@)
        &&& self.sub_index.page_schema() == crate::flat::flat_schema(
            crate::text::texts(self.columns@),
            self.page_lookup@.data_types,
        )
    }

    /// An index from the contents of its lookup file: the batch in it and the
    /// schema of the file.
    pub fn load(lookup_batch: &RecordBatch, file_schema: &Schema, column_names: Vec<String>) -> (r:
        Result<CompoundBTreeIndex, Error>)
        requires
            crate::lookup::readable_lookup(lookup_batch@, column_names@.len()),
        ensures
            match crate::lookup::lookup_defect(
                lookup_batch@,
                crate::text::texts(column_names@),
            ) {
                Some(e) => crate::error::fails_with(r, e),
                None => r matches Ok(i) && i@ == (IndexView {
                    columns: crate::text::texts(column_names@),
                    lookup: crate::lookup::parsed_lookup(lookup_batch@, column_names@.len()),
                    batch_size: recorded_batch_size(file_schema@.metadata),
                }),
            },
    {
        let batch_size: u64 = match file_schema.metadata_value(COMPOUND_BATCH_SIZE_META_KEY) {
            Some(text) => match parse_u64(text.as_str()) {
                Some(n) => n,
                None => DEFAULT_COMPOUND_BATCH_SIZE,
            },
            None => DEFAULT_COMPOUND_BATCH_SIZE,
        };
        let page_lookup = match CompoundBTreeLookup::try_from_serialized(
            lookup_batch,
            &column_names,
        ) {
            Ok(l) => l,
            Err(e) => {
                return Err(e);
            },
        };
        let data_types = clone_types(page_lookup.data_types());
        assert(crate::datatype::types(data_types@).len() == column_names@.len());
        let sub_index = CompoundFlatIndexMetadata::new(
            clone_texts(&column_names),
            clone_types(&data_types),
        );
        Ok(
            CompoundBTreeIndex {
                columns: column_names,
                data_types,
                page_lookup,
                sub_index,
                batch_size,
            },
        )
    }

    /// The column names in index order.
    pub fn columns(&self) -> (r: &Vec<String>)
        ensures
            crate::text::texts(r@) == self@.columns,
    {
        &self.columns
    }

    /// The types of the indexed columns.
    pub fn data_types(&self) -> (r: &Vec<DataType>)
        ensures
            crate::datatype::types(r@) == self@.lookup.data_types,
    {
        proof {
            use_type_invariant(self);
        }
        &self.data_types
    }

    /// The number of pages.
    pub fn num_pages(&self) -> (r: usize)
        ensures
            r == self@.lookup.page_stats.len(),
    {
        self.page_lookup.num_pages()
    }

    /// Rows per page.
    pub fn batch_size(&self) -> (r: u64)
        ensures
            r == self@.batch_size,
    {
        self.batch_size
    }

    /// The subindex that trains and remaps the pages.
    pub fn sub_index(&self) -> (r: &CompoundFlatIndexMetadata)
        ensures
            r.names() == self@.columns,
            r.page_schema() == crate::flat::flat_schema(
                self@.columns,
                self@.lookup.data_types,
            ),
    {
        proof {
            use_type_invariant(self);
        }
        &self.sub_index
    }

    /// The pages that a search has to look at, by the statistics of their
    /// columns.
    pub fn candidate_pages(&self, query: &CompoundSargableQuery) -> (r: Vec<u32>)
        ensures
            r@ == crate::lookup::candidates(
                self@.lookup.page_stats,
                self@.lookup.num_columns(),
                query@,
            ),
    {
        proof {
            use_type_invariant(self);
        }
        self.page_lookup.find_candidate_pages(query)
    }

    /// Search a page for rows matching the query.
    pub fn search_batch(&self, batch: &RecordBatch, query: &CompoundSargableQuery) -> (r: Result<
        RowAddrTreeMap,
        Error,
    >)
        requires
            searchable(batch@),
            query_fits(query@, self@.columns.len()),
            !(query@ is PrefixLookup) ==> rows_addressable(batch@, self@.columns),
        ensures
            found(r, page_result(batch@, self@.columns, self@.lookup.data_types, query@)),
            page_regular(batch@, self@.columns, self@.lookup.data_types) ==> r is Ok,
            !(query@ is PrefixLookup) && r is Ok ==> rows_faithful(
                batch@,
                self@.columns,
                self@.lookup.data_types,
            ),
    {
        match query {
            CompoundSargableQuery::FullKeyLookup(key) => self.search_full_key(batch, key),
            CompoundSargableQuery::PrefixLookup { prefix, range } => {
                proof {
                    if page_whole(batch@, self@.columns) {
                        prefix_lookup_finds_matches(
                            batch@,
                            self@.columns,
                            crate::scalar::scalars(prefix@),
                            crate::compound::range_view(*range),
                            0,
                        );
                    }
                }
                self.search_prefix(batch, prefix, range)
            },
            CompoundSargableQuery::Range { lower, upper } => {
                self.search_range(batch, lower, upper)
            },
        }
    }

    /// The rows of a page in the row format, and its row ids.
    fn rows_and_ids<'a>(&self, batch: &'a RecordBatch) -> (r: Result<
        (Vec<Vec<u8>>, &'a Column),
        Error,
    >)
        requires
            rows_addressable(batch@, self@.columns),
        ensures
            r is Ok <==> page_regular(batch@, self@.columns, self@.lookup.data_types),
            r is Ok ==> rows_faithful(batch@, self@.columns, self@.lookup.data_types),
            match (r, page_rows(batch@, self@.columns, self@.lookup.data_types)) {
                (Ok((rows, ids)), Ok(v)) => {
                    &&& crate::rows::byte_rows(rows@) == v
                    &&& batch@.column_by_name(COMPOUND_IDS_COLUMN@) == Some(ids@)
                    &&& ids@.values.len() == batch@.rows
                    &&& rows@.len() == (if self@.columns.len() == 0 {
                        0
                    } else {
                        batch@.rows
                    })
                    &&& forall|other: Seq<ColumnView>, i: int, j: int|
                        #![trigger crate::rows::converted_rows(self@.lookup.data_types, other)->Ok_0[j], rows@[i]]
                        crate::rows::converted_rows(self@.lookup.data_types, other) is Ok && 0 <= i
                            < rows@.len() && 0 <= j < crate::rows::converted_rows(
                            self@.lookup.data_types,
                            other,
                        )->Ok_0.len() ==> crate::compound::bytes_compare(
                            rows@[i]@,
                            crate::rows::converted_rows(
                                self@.lookup.data_types,
                                other,
                            )->Ok_0[j],
                        ) == crate::rows::row_order(
                            value_columns(batch@, self@.columns),
                            i,
                            other,
                            j,
                            self@.columns.len(),
                        )
                },
                (Err(e), Err(v)) => e@ == v,
                _ => false,
            },
    {
        proof {
            use_type_invariant(self);
        }
        let converter = match create_compound_row_converter(&self.data_types) {
            Ok(c) => c,
            Err(e) => {
                return Err(e);
            },
        };
        let mut columns: Vec<Column> = Vec::new();
        let ghost names = self@.columns;
        let ghost p = crate::stats::is_missing(batch@, names);
        for c in 0..self.columns.len()
            invariant
                names == self@.columns,
                names == crate::text::texts(self.columns@),
                rows_addressable(batch@, names),
                p == crate::stats::is_missing(batch@, names),
                forall|j: int| 0 <= j < c ==> !(#[trigger] p(j)),
                columns@.len() == c,
                forall|j: int|
                    0 <= j < c ==> {
                        &&& (#[trigger] columns@[j])@ == batch@.column_by_name(names[j])->0
                        &&& columns@[j]@.values.len() == batch@.rows
                        &&& crate::rows::addressable(columns@[j]@)
                    },
        {
            match batch.column_by_name(self.columns[c].as_str()) {
                Some(col) => {
                    assert(!p(c as int));
                    columns.push(col.clone());
                },
                None => {
                    proof {
                        assert(p(c as int));
                        crate::first::first_where_found(names.len(), p, c as int);
                    }
                    return Err(
                        ErrorOf::Index { message: "Missing value columns in page".to_owned() },
                    );
                },
            }
        }
        proof {
            crate::first::first_where_absent(names.len(), p);
            let cols = crate::batch::columns_view(columns@);
            let types = self@.lookup.data_types;
            assert(cols =~= value_columns(batch@, names));
            if page_regular(batch@, names, types) {
                assert forall|i: int| 0 <= i < cols.len() implies (
                #[trigger] cols[i]).data_type == types[i] && cols[i].values.len()
                    == cols[0].values.len() by {
                    assert(cols[i] == columns@[i]@ && cols[0] == columns@[0]@);
                    assert((batch@.column_by_name(names[i])->0).data_type == types[i]);
                }
                assert forall|i: int| 0 <= i < cols.len() implies crate::rows::encodable(
                    #[trigger] cols[i],
                ) by {
                    assert(cols[i] == batch@.column_by_name(names[i])->0);
                    assert((batch@.column_by_name(names[i])->0).data_type == types[i]);
                }
            }
        }
        let rows = match converter.convert_columns(&columns) {
            Ok(rows) => rows,
            Err(e) => {
                return Err(
                    ErrorOf::Index {
                        message: concat2("Failed to convert page to rows: ", e.as_str()),
                    },
                );
            },
        };
        proof {
            let cols = crate::batch::columns_view(columns@);
            assert forall|c: int| 0 <= c < names.len() implies {
                &&& batch@.column_by_name(#[trigger] names[c]) is Some
                &&& (batch@.column_by_name(names[c])->0).data_type == self@.lookup.data_types[c]
                &&& crate::rows::encodable(batch@.column_by_name(names[c])->0)
            } by {
                assert(!p(c));
                assert(cols[c] == batch@.column_by_name(names[c])->0);
            }
        }
        proof {
            let types = self@.lookup.data_types;
            if page_rows(batch@, names, types) is Ok {
                let views = page_rows(batch@, names, types)->Ok_0;
                assert forall|other: Seq<ColumnView>, i: int, j: int|
                    #![trigger crate::rows::converted_rows(types, other)->Ok_0[j], views[i]]
                    crate::rows::converted_rows(types, other) is Ok && 0 <= i < views.len() && 0
                        <= j < crate::rows::converted_rows(
                        types,
                        other,
                    )->Ok_0.len() implies crate::compound::bytes_compare(
                    views[i],
                    crate::rows::converted_rows(types, other)->Ok_0[j],
                ) == crate::rows::row_order(
                    value_columns(batch@, names),
                    i,
                    other,
                    j,
                    names.len(),
                ) by {
                    assert(views[i] == rows@[i]@);
                }
            }
        }
        match batch.column_by_name(COMPOUND_IDS_COLUMN) {
            Some(ids) => Ok((rows, ids)),
            None => Err(ErrorOf::Index { message: "Missing _rowid column in page".to_owned() }),
        }
    }

    /// Search for an exact full key match. Where the rows of the page are in
    /// key order, every row with the key is found; where the key is that of a
    /// row of other columns, a row has it exactly when the two rows hold the
    /// same values.
    pub fn search_full_key(&self, batch: &RecordBatch, key: &CompoundKey) -> (r: Result<
        RowAddrTreeMap,
        Error,
    >)
        requires
            searchable(batch@),
            rows_addressable(batch@, self@.columns),
        ensures
            found(
                r,
                full_key_result(batch@, self@.columns, self@.lookup.data_types, key@),
            ),
            r is Ok <==> page_regular(batch@, self@.columns, self@.lookup.data_types),
            r is Ok && in_key_order(value_columns(batch@, self@.columns), batch@.rows) ==> found(
                r,
                Ok(
                    crate::row_set::collected(
                        page_rows(batch@, self@.columns, self@.lookup.data_types)->Ok_0.len(),
                        row_is(page_rows(batch@, self@.columns, self@.lookup.data_types)->Ok_0, key@),
                        row_id(batch@),
                    ),
                ),
            ),
            r is Ok ==> rows_faithful(batch@, self@.columns, self@.lookup.data_types),
            r is Ok ==> forall|other: Seq<ColumnView>, i: int, j: int|
                #![trigger crate::rows::converted_rows(self@.lookup.data_types, other)->Ok_0[j], page_rows(batch@, self@.columns, self@.lookup.data_types)->Ok_0[i]]
                crate::rows::converted_rows(self@.lookup.data_types, other) is Ok && 0 <= j
                    < crate::rows::converted_rows(self@.lookup.data_types, other)->Ok_0.len()
                    && crate::rows::converted_rows(self@.lookup.data_types, other)->Ok_0[j] == key@
                    && 0 <= i < page_rows(batch@, self@.columns, self@.lookup.data_types)->Ok_0.len()
                    ==> (page_rows(batch@, self@.columns, self@.lookup.data_types)->Ok_0[i] == key@
                    <==> crate::rows::row_order(
                    value_columns(batch@, self@.columns),
                    i,
                    other,
                    j,
                    self@.columns.len(),
                ) == Order::Equal),
    {
        let (rows, row_ids) = match self.rows_and_ids(batch) {
            Ok(x) => x,
            Err(e) => {
                return Err(e);
            },
        };
        let ghost views = crate::rows::byte_rows(rows@);
        let key_bytes = key.as_bytes();
        let ghost hit = row_is(views, key@);
        let ghost past = row_exceeds(views, key@);
        let ghost id = row_id(batch@);
        let mut results = new_row_set();
        let mut i: usize = 0;
        let n = rows.len();
        let mut stopped = false;
        while i < n && !stopped
            invariant
                i <= n,
                n == rows@.len(),
                n <= row_ids@.values.len(),
                views == crate::rows::byte_rows(rows@),
                hit == row_is(views, key@),
                past == row_exceeds(views, key@),
                id == row_id(batch@),
                key_bytes@ == key@,
                batch@.column_by_name(COMPOUND_IDS_COLUMN@) == Some(row_ids@),
                row_ids@.data_type is UInt64,
                forall|j: int| 0 <= j < i ==> !(#[trigger] past(j)),
                stopped ==> i < n && past(i as int),
                crate::row_set::row_addrs(results) == crate::row_set::collected(i as nat, hit, id),
            decreases
                    (if stopped {
                        0int
                    } else {
                        n - i + 1
                    }),
        {
            proof {
                same_bytes(rows@[i as int]@, key@);
                assert(views[i as int] == rows@[i as int]@);
            }
            match crate::scalar::bytes_order(&rows[i], key_bytes) {
                Order::Equal => {
                    assert(!past(i as int));
                    insert_row(&mut results, row_ids.u64_value(i));
                    i += 1;
                },
                Order::Greater => {
                    assert(past(i as int));
                    stopped = true;
                },
                Order::Less => {
                    assert(!past(i as int));
                    i += 1;
                },
            }
        }
        proof {
            if stopped {
                crate::first::first_where_found(n as nat, past, i as int);
            } else {
                crate::first::first_where_absent(n as nat, past);
            }
            let cols = value_columns(batch@, self@.columns);
            let types = self@.lookup.data_types;
            if in_key_order(cols, batch@.rows) {
                assert forall|x: int, y: int|
                    0 <= x <= y < views.len() implies crate::compound::bytes_compare(
                    #[trigger] views[x],
                    #[trigger] views[y],
                ) != Order::Greater by {
                    assert(crate::rows::converted_rows(types, cols)->Ok_0[y] == views[y]);
                    assert(rows@[x]@ == views[x]);
                    assert(crate::rows::row_order(cols, x, cols, y, cols.len())
                        != Order::Greater);
                }
                scan_loses_nothing(views, key@, id);
            }
            assert forall|other: Seq<ColumnView>, x: int, y: int|
                #![trigger crate::rows::converted_rows(types, other)->Ok_0[y], views[x]]
                crate::rows::converted_rows(types, other) is Ok && 0 <= y
                    < crate::rows::converted_rows(types, other)->Ok_0.len()
                    && crate::rows::converted_rows(types, other)->Ok_0[y] == key@ && 0 <= x
                    < views.len() implies (views[x] == key@ <==> crate::rows::row_order(
                cols,
                x,
                other,
                y,
                self@.columns.len(),
            ) == Order::Equal) by {
                assert(rows@[x]@ == views[x]);
                same_bytes(views[x], key@);
            }
        }
        Ok(results)
    }

    /// Search for rows matching a prefix, with an optional range on the next
    /// column. A null in the prefix matches every null of its column, also where
    /// it is a null of another type or of none.
    pub fn search_prefix(
        &self,
        batch: &RecordBatch,
        prefix: &Vec<ScalarValue>,
        range: &Option<(Bound<ScalarValue>, Bound<ScalarValue>)>,
    ) -> (r: Result<RowAddrTreeMap, Error>)
        requires
            searchable(batch@),
            prefix@.len() <= self@.columns.len(),
        ensures
            found(
                r,
                prefix_result(
                    batch@,
                    self@.columns,
                    crate::scalar::scalars(prefix@),
                    crate::compound::range_view(*range),
                ),
            ),
    {
        let row_ids = match batch.column_by_name(COMPOUND_IDS_COLUMN) {
            Some(ids) => ids,
            None => {
                return Err(ErrorOf::Index { message: "Missing _rowid column in page".to_owned() });
            },
        };
        let n = batch.num_rows();
        let mut results = new_row_set();
        let ghost names = self@.columns;
        let ghost ps = crate::scalar::scalars(prefix@);
        let ghost rg = crate::compound::range_view(*range);
        let ghost fails = row_fails(batch@, names, ps, rg);
        let ghost hits = row_hits(batch@, names, ps, rg);
        let ghost id = row_id(batch@);
        for row in 0..n
            invariant
                n == batch@.rows,
                n == row_ids@.values.len(),
                batch@.column_by_name(COMPOUND_IDS_COLUMN@) == Some(row_ids@),
                row_ids@.data_type is UInt64,
                prefix@.len() <= self@.columns.len(),
                names == self@.columns,
                ps == crate::scalar::scalars(prefix@),
                rg == crate::compound::range_view(*range),
                fails == row_fails(batch@, names, ps, rg),
                hits == row_hits(batch@, names, ps, rg),
                id == row_id(batch@),
                forall|j: int| 0 <= j < row ==> !(#[trigger] fails(j)),
                crate::row_set::row_addrs(results) == crate::row_set::collected(
                    row as nat,
                    hits,
                    id,
                ),
        {
            match self.matches_row(batch, prefix, range, row) {
                Ok(hit) => {
                    assert(!fails(row as int));
                    if hit {
                        insert_row(&mut results, row_ids.u64_value(row));
                    }
                },
                Err(e) => {
                    proof {
                        assert(fails(row as int));
                        crate::first::first_where_found(n as nat, fails, row as int);
                    }
                    return Err(e);
                },
            }
        }
        proof {
            crate::first::first_where_absent(n as nat, fails);
        }
        Ok(results)
    }

    /// Whether a row matches a prefix, with an optional range on the next
    /// column.
    fn matches_row(
        &self,
        batch: &RecordBatch,
        prefix: &Vec<ScalarValue>,
        range: &Option<(Bound<ScalarValue>, Bound<ScalarValue>)>,
        row: usize,
    ) -> (r: Result<bool, Error>)
        requires
            row < batch@.rows,
            prefix@.len() <= self@.columns.len(),
        ensures
            match (r, row_matches(
                batch@,
                self@.columns,
                crate::scalar::scalars(prefix@),
                crate::compound::range_view(*range),
                row as int,
            )) {
                (Ok(x), Ok(y)) => x == y,
                (Err(e), Err(y)) => e@ == y,
                _ => false,
            },
    {
        let ghost names = self@.columns;
        let ghost ps = crate::scalar::scalars(prefix@);
        for k in 0..prefix.len()
            invariant
                row < batch@.rows,
                prefix@.len() <= self@.columns.len(),
                names == self@.columns,
                names == crate::text::texts(self.columns@),
                ps == crate::scalar::scalars(prefix@),
                prefix_matches(batch@, names, ps, row as int, k as nat) == Ok::<bool, ErrorView>(
                    true,
                ),
        {
            assert(ps[k as int] == prefix@[k as int]@);
            match batch.column_by_name(self.columns[k].as_str()) {
                Some(col) => {
                    if !col.value(row).answers(&prefix[k]) {
                        proof {
                            prefix_mismatch_stays(
                                batch@,
                                names,
                                ps,
                                row as int,
                                (k + 1) as nat,
                                ps.len(),
                            );
                        }
                        return Ok(false);
                    }
                },
                None => {
                    proof {
                        prefix_mismatch_stays(
                            batch@,
                            names,
                            ps,
                            row as int,
                            (k + 1) as nat,
                            ps.len(),
                        );
                    }
                    return Err(
                        ErrorOf::Index {
                            message: concat3(
                                "Missing column ",
                                self.columns[k].as_str(),
                                " in page",
                            ),
                        },
                    );
                },
            }
        }
        match range {
            Some((lower, upper)) => {
                if prefix.len() < self.columns.len() {
                    self.matches_range(batch, row, prefix.len(), lower, upper)
                } else {
                    Ok(true)
                }
            },
            None => Ok(true),
        }
    }

    /// Whether a row matches a range predicate on a column.
    pub fn matches_range(
        &self,
        batch: &RecordBatch,
        row_idx: usize,
        col_idx: usize,
        lower: &Bound<ScalarValue>,
        upper: &Bound<ScalarValue>,
    ) -> (r: Result<bool, Error>)
        requires
            row_idx < batch@.rows,
            col_idx < self@.columns.len(),
        ensures
            match (r, range_matches(
                batch@,
                self@.columns[col_idx as int],
                row_idx as int,
                crate::compound::bound_view(*lower),
                crate::compound::bound_view(*upper),
            )) {
                (Ok(x), Ok(y)) => x == y,
                (Err(e), Err(y)) => e@ == y,
                _ => false,
            },
    {
        match batch.column_by_name(self.columns[col_idx].as_str()) {
            Some(col) => Ok(crate::compound::is_in_range(col.value(row_idx), lower, upper)),
            None => Err(
                ErrorOf::Index {
                    message: concat3(
                        "Missing column ",
                        self.columns[col_idx].as_str(),
                        " in page",
                    ),
                },
            ),
        }
    }

    /// Search for rows within a compound key range. The keys of the rows are as
    /// many as the page has rows, and compare as the values they stand for.
    pub fn search_range(
        &self,
        batch: &RecordBatch,
        lower: &Bound<CompoundKey>,
        upper: &Bound<CompoundKey>,
    ) -> (r: Result<RowAddrTreeMap, Error>)
        requires
            searchable(batch@),
            rows_addressable(batch@, self@.columns),
        ensures
            r is Ok <==> page_regular(batch@, self@.columns, self@.lookup.data_types),
            r is Ok ==> rows_faithful(batch@, self@.columns, self@.lookup.data_types),
            found(
                r,
                key_range_result(
                    batch@,
                    self@.columns,
                    self@.lookup.data_types,
                    crate::compound::key_bound_view(*lower),
                    crate::compound::key_bound_view(*upper),
                ),
            ),
    {
        let (rows, row_ids) = match self.rows_and_ids(batch) {
            Ok(x) => x,
            Err(e) => {
                return Err(e);
            },
        };
        let ghost views = crate::rows::byte_rows(rows@);
        let ghost hit = row_between(
            views,
            crate::compound::key_bound_view(*lower),
            crate::compound::key_bound_view(*upper),
        );
        let ghost id = row_id(batch@);
        let mut results = new_row_set();
        for i in 0..rows.len()
            invariant
                rows@.len() <= row_ids@.values.len(),
                views == crate::rows::byte_rows(rows@),
                hit == row_between(
                    views,
                    crate::compound::key_bound_view(*lower),
                    crate::compound::key_bound_view(*upper),
                ),
                id == row_id(batch@),
                batch@.column_by_name(COMPOUND_IDS_COLUMN@) == Some(row_ids@),
                row_ids@.data_type is UInt64,
                crate::row_set::row_addrs(results) == crate::row_set::collected(i as nat, hit, id),
        {
            assert(views[i as int] == rows@[i as int]@);
            if crate::compound::is_key_in_range(&rows[i], lower, upper) {
                insert_row(&mut results, row_ids.u64_value(i));
            }
        }
        Ok(results)
    }

    /// Search several pages: the union of what is found in each, or the first
    /// error.
    pub fn search(&self, query: &CompoundSargableQuery, pages: &Vec<RecordBatch>) -> (r: Result<
        SearchResult,
        Error,
    >)
        requires
            forall|p: int| 0 <= p < pages@.len() ==> searchable((#[trigger] pages@[p])@),
            query_fits(query@, self@.columns.len()),
            !(query@ is PrefixLookup) ==> forall|p: int|
                0 <= p < pages@.len() ==> rows_addressable(
                    (#[trigger] pages@[p])@,
                    self@.columns,
                ),
        ensures
            (forall|p: int|
                0 <= p < pages@.len() ==> page_regular(
                    (#[trigger] pages@[p])@,
                    self@.columns,
                    self@.lookup.data_types,
                )) ==> r is Ok,
            match (r, pages_result(
                crate::batch::batches_view(pages@),
                self@.columns,
                self@.lookup.data_types,
                query@,
            )) {
                (Ok(SearchResult::Exact(m)), Ok(s)) => crate::row_set::row_addrs(m) == s,
                (Err(e), Err(y)) => e@ == y,
                _ => false,
            },
            !(query@ is PrefixLookup) && r is Ok ==> keys_read(
                crate::batch::batches_view(pages@),
                self@.columns,
                self@.lookup.data_types,
            ),
    {
        let mut results = new_row_set();
        let ghost views = crate::batch::batches_view(pages@);
        for p in 0..pages.len()
            invariant
                !(query@ is PrefixLookup) ==> forall|q: int|
                    0 <= q < p ==> rows_faithful(
                        #[trigger] views[q],
                        self@.columns,
                        self@.lookup.data_types,
                    ),
                views == crate::batch::batches_view(pages@),
                forall|p: int| 0 <= p < pages@.len() ==> searchable((#[trigger] pages@[p])@),
                query_fits(query@, self@.columns.len()),
                !(query@ is PrefixLookup) ==> forall|p: int|
                    0 <= p < pages@.len() ==> rows_addressable(
                        (#[trigger] pages@[p])@,
                        self@.columns,
                    ),
                pages_result(
                    views.take(p as int),
                    self@.columns,
                    self@.lookup.data_types,
                    query@,
                ) == Ok::<Set<u64>, ErrorView>(crate::row_set::row_addrs(results)),
        {
            assert(views.take(p + 1).drop_last() =~= views.take(p as int));
            assert(views.take(p + 1).last() == pages@[p as int]@);
            match self.search_batch(&pages[p], query) {
                Ok(rows) => union_rows(&mut results, rows),
                Err(e) => {
                    proof {
                        pages_error_stays(
                            views,
                            self@.columns,
                            self@.lookup.data_types,
                            query@,
                            p + 1,
                        );
                    }
                    return Err(e);
                },
            }
        }
        assert(views.take(views.len() as int) =~= views);
        Ok(SearchResult::Exact(results))
    }

    /// Join what searches of single pages found.
    pub fn join_results(results: Vec<RowAddrTreeMap>) -> (r: RowAddrTreeMap)
        ensures
            forall|x: u64|
                crate::row_set::row_addrs(r).contains(x) <==> exists|p: int|
                    0 <= p < results@.len() && crate::row_set::row_addrs(
                        #[trigger] results@[p],
                    ).contains(x),
    {
        let mut joined = new_row_set();
        let mut rest = results;
        let ghost all = results@;
        while rest.len() > 0
            invariant
                rest@ == all.take(rest@.len() as int),
                rest@.len() <= all.len(),
                forall|x: u64|
                    crate::row_set::row_addrs(joined).contains(x) <==> exists|p: int|
                        rest@.len() <= p < all.len() && crate::row_set::row_addrs(
                            #[trigger] all[p],
                        ).contains(x),
            decreases rest@.len(),
        {
            let ghost k = rest@.len() - 1;
            let ghost before = crate::row_set::row_addrs(joined);
            match rest.pop() {
                Some(m) => {
                    union_rows(&mut joined, m);
                    assert(m == all[k]);
                },
                None => {},
            }
            assert forall|x: u64|
                crate::row_set::row_addrs(joined).contains(x) implies exists|p: int|
                k <= p < all.len() && crate::row_set::row_addrs(#[trigger] all[p]).contains(
                    x,
                ) by {
                if crate::row_set::row_addrs(all[k]).contains(x) {
                } else {
                    assert(before.contains(x));
                }
            }
        }
        joined
    }

    /// How many pages of this index's size `num_rows` rows fill.
    pub fn page_count(&self, num_rows: usize) -> (r: usize)
        requires
            self@.batch_size as usize > 0,
        ensures
            r == (num_rows + (self@.batch_size as usize) - 1) / (self@.batch_size as usize) as int,
            r == crate::pages::pages_for(
                num_rows as nat,
                crate::train::page_len(self@.batch_size),
            ),
    {
        let size: usize = #[verifier::truncate] (self.batch_size as usize);
        let full = num_rows / size;
        proof {
            vstd::arithmetic::div_mod::lemma_fundamental_div_mod(num_rows as int, size as int);
            assert(0 <= num_rows % size < size);
            let q = num_rows as int / size as int;
            let m = num_rows as int % size as int;
            if m == 0 {
                vstd::arithmetic::div_mod::lemma_fundamental_div_mod_converse(
                    num_rows + size - 1,
                    size as int,
                    q,
                    size - 1,
                );
            } else {
                assert(size as int * (q + 1) == size as int * q + size as int)
                    by (nonlinear_arith);
                vstd::arithmetic::div_mod::lemma_fundamental_div_mod_converse(
                    num_rows + size - 1,
                    size as int,
                    q + 1,
                    m - 1,
                );
                assert(q < num_rows) by (nonlinear_arith)
                    requires
                        num_rows as int == size as int * q + m,
                        m > 0,
                        m < size,
                        q >= 0,
                ;
            }
        }
        if num_rows % size == 0 {
            full
        } else {
            full + 1
        }
    }

    /// Add the fragments of a page's rows.
    pub fn add_fragments(frag_ids: &mut RoaringBitmap, page: &RecordBatch) -> (r: Result<
        (),
        Error,
    >)
        requires
            searchable(page@),
        ensures
            page@.column_by_name(COMPOUND_IDS_COLUMN@) is None ==> crate::error::fails_with(
                r,
                crate::error::index_error("Missing _rowid column"@),
            ) && *final(frag_ids) == *old(frag_ids),
            page@.column_by_name(COMPOUND_IDS_COLUMN@) is Some ==> r is Ok && crate::row_set::bits(
                *final(frag_ids),
            ) == crate::row_set::bits(*old(frag_ids)).union(
                fragments_of(page@.rows, row_id(page@)),
            ),
    {
        let row_ids = match page.column_by_name(COMPOUND_IDS_COLUMN) {
            Some(ids) => ids,
            None => {
                return Err(ErrorOf::Index { message: "Missing _rowid column".to_owned() });
            },
        };
        let ghost id = row_id(page@);
        let ghost start = crate::row_set::bits(*frag_ids);
        assert(start =~= start.union(fragments_of(0, id)));
        let n = row_ids.len();
        for i in 0..n
            invariant
                n == row_ids@.values.len(),
                page@.column_by_name(COMPOUND_IDS_COLUMN@) == Some(row_ids@),
                row_ids@.data_type is UInt64,
                id == row_id(page@),
                crate::row_set::bits(*frag_ids) == start.union(fragments_of(i as nat, id)),
        {
            let row_id: u64 = row_ids.u64_value(i);
            let frag_id: u32 = #[verifier::truncate] ((row_id >> 32) as u32);
            insert_bit(frag_ids, frag_id);
            assert(frag_id == fragment_of(id(i as int)));
            assert(crate::row_set::bits(*frag_ids) =~= start.union(
                fragments_of((i + 1) as nat, id),
            ));
        }
        Ok(())
    }

    /// The fragments that the rows of the given pages belong to.
    pub fn calculate_included_frags(pages: &Vec<RecordBatch>) -> (r: Result<RoaringBitmap, Error>)
        requires
            forall|p: int| 0 <= p < pages@.len() ==> searchable((#[trigger] pages@[p])@),
        ensures
            match (r, included_fragments(crate::batch::batches_view(pages@))) {
                (Ok(m), Ok(s)) => crate::row_set::bits(m) == s,
                (Err(e), Err(y)) => e@ == y,
                _ => false,
            },
    {
        let mut frag_ids = new_bitmap();
        let ghost views = crate::batch::batches_view(pages@);
        for p in 0..pages.len()
            invariant
                views == crate::batch::batches_view(pages@),
                forall|p: int| 0 <= p < pages@.len() ==> searchable((#[trigger] pages@[p])@),
                included_fragments(views.take(p as int)) == Ok::<Set<u32>, ErrorView>(
                    crate::row_set::bits(frag_ids),
                ),
        {
            assert(views.take(p + 1).drop_last() =~= views.take(p as int));
            assert(views.take(p + 1).last() == pages@[p as int]@);
            match CompoundBTreeIndex::add_fragments(&mut frag_ids, &pages[p]) {
                Ok(_) => {},
                Err(e) => {
                    proof {
                        fragments_error_stays(views, p + 1);
                    }
                    return Err(e);
                },
            }
        }
        assert(views.take(views.len() as int) =~= views);
        Ok(frag_ids)
    }

    /// The pages of the index with their row ids mapped.
    pub fn remap(&self, pages: &Vec<RecordBatch>, mapping: &HashMap<u64, Option<u64>>) -> (r:
        Result<Vec<RecordBatch>, Error>)
        requires
            forall|p: int|
                0 <= p < pages@.len() ==> crate::flat::ends_in_row_ids((#[trigger] pages@[p])@),
        ensures
            r matches Ok(out) && out@.len() == pages@.len() && forall|p: int|
                0 <= p < pages@.len() ==> (#[trigger] out@[p])@ == crate::flat::remapped_page(
                    pages@[p]@,
                    mapping@,
                ),
    {
        let mut out: Vec<RecordBatch> = Vec::new();
        for p in 0..pages.len()
            invariant
                forall|p: int|
                    0 <= p < pages@.len() ==> crate::flat::ends_in_row_ids(
                        (#[trigger] pages@[p])@,
                    ),
                out@.len() == p,
                forall|q: int|
                    0 <= q < p ==> (#[trigger] out@[q])@ == crate::flat::remapped_page(
                        pages@[q]@,
                        mapping@,
                    ),
        {
            match self.sub_index.remap_subindex(&pages[p], mapping) {
                Ok(page) => out.push(page),
                Err(e) => {
                    return Err(e);
                },
            }
        }
        Ok(out)
    }

    /// Row ids can be remapped.
    pub fn can_remap(&self) -> (r: bool)
        ensures
            r,
    {
        true
    }

    /// Adding rows to an index is not supported.
    pub fn update(&self) -> (r: Result<(), Error>)
        ensures
            crate::error::fails_with(
                r,
                crate::error::not_supported("Compound index update not yet implemented"@),
            ),
    {
        Err(
            ErrorOf::NotSupported {
                message: "Compound index update not yet implemented".to_owned(),
            },
        )
    }

    /// This is no vector index.
    pub fn as_vector_index(&self) -> (r: Result<(), Error>)
        ensures
            crate::error::fails_with(
                r,
                crate::error::not_supported("CompoundBTreeIndex is not a vector index"@),
            ),
    {
        Err(
            ErrorOf::NotSupported {
                message: "CompoundBTreeIndex is not a vector index".to_owned(),
            },
        )
    }

    /// The statistics of the index.
    pub fn statistics(&self) -> (r: IndexStatistics)
        ensures
            r.index_type@ == "CompoundBTree"@,
            crate::text::texts(r.columns@) == self@.columns,
            r.num_pages == self@.lookup.page_stats.len(),
    {
        IndexStatistics {
            index_type: "CompoundBTree".to_owned(),
            columns: clone_texts(&self.columns),
            num_pages: self.page_lookup.num_pages(),
        }
    }
}

/// Rows in ascending key order.
pub open spec fn in_key_order(columns: Seq<ColumnView>, rows: nat) -> bool {
    forall|i: int, j: int|
        0 <= i <= j < rows ==> #[trigger] crate::rows::row_order(
            columns,
            i,
            columns,
            j,
            columns.len(),
        ) != Order::Greater
}

/// Byte strings compare as equal exactly when they are equal.
pub proof fn same_bytes(a: Seq<u8>, b: Seq<u8>)
    ensures
        crate::compound::bytes_compare(a, b) == Order::Equal <==> a == b,
{
    let x = crate::scalar::byte_values(a);
    let y = crate::scalar::byte_values(b);
    crate::scalar::seq_order_equal(x, y);
    if x == y {
        assert(a.len() == b.len());
        assert forall|i: int| 0 <= i < a.len() implies a[i] == b[i] by {
            assert(x[i] == y[i]);
        }
        assert(a =~= b);
    }
}

/// A prefix that is decided against a row stays so.
proof fn prefix_mismatch_stays(
    batch: BatchView,
    names: Seq<Seq<char>>,
    prefix: Seq<ScalarView>,
    row: int,
    k: nat,
    n: nat,
)
    requires
        k <= n,
        prefix_matches(batch, names, prefix, row, k) != Ok::<bool, ErrorView>(true),
    ensures
        prefix_matches(batch, names, prefix, row, n) == prefix_matches(
            batch,
            names,
            prefix,
            row,
            k,
        ),
    decreases n,
{
    if k < n {
        prefix_mismatch_stays(batch, names, prefix, row, k, (n - 1) as nat);
    }
}

/// An error in the first pages is the result for all of them.
proof fn pages_error_stays(
    pages: Seq<BatchView>,
    names: Seq<Seq<char>>,
    types: Seq<DataTypeView>,
    query: QueryView,
    k: int,
)
    requires
        0 <= k <= pages.len(),
        pages_result(pages.take(k), names, types, query) is Err,
    ensures
        pages_result(pages, names, types, query) == pages_result(
            pages.take(k),
            names,
            types,
            query,
        ),
    decreases pages.len(),
{
    if k < pages.len() {
        assert(pages.drop_last().take(k) =~= pages.take(k));
        pages_error_stays(pages.drop_last(), names, types, query, k);
    } else {
        assert(pages.take(k) =~= pages);
    }
}

proof fn fragments_error_stays(pages: Seq<BatchView>, k: int)
    requires
        0 <= k <= pages.len(),
        included_fragments(pages.take(k)) is Err,
    ensures
        included_fragments(pages) == included_fragments(pages.take(k)),
    decreases pages.len(),
{
    if k < pages.len() {
        assert(pages.drop_last().take(k) =~= pages.take(k));
        fragments_error_stays(pages.drop_last(), k);
    } else {
        assert(pages.take(k) =~= pages);
    }
}

/// The statistics of a page cover each of its value columns.
pub open spec fn page_covered(
    batch: BatchView,
    names: Seq<Seq<char>>,
    stats: PageStatsView,
) -> bool {
    forall|c: int|
        0 <= c < names.len() ==> (batch.column_by_name(#[trigger] names[c]) matches Some(col)
            ==> col.values.len() == batch.rows && crate::lookup::stats_cover(
            col.values,
            stats.mins[c],
            stats.maxs[c],
            stats.null_counts[c],
        ))
}

/// A page that has all its columns.
pub open spec fn page_whole(batch: BatchView, names: Seq<Seq<char>>) -> bool {
    &&& batch.column_by_name(COMPOUND_IDS_COLUMN@) is Some
    &&& forall|c: int| 0 <= c < names.len() ==> batch.column_by_name(#[trigger] names[c]) is Some
}

/// In a whole page a row can always be decided, and a matching row has the
/// values of the prefix.
proof fn prefix_decided(
    batch: BatchView,
    names: Seq<Seq<char>>,
    prefix: Seq<ScalarView>,
    row: int,
    k: nat,
)
    requires
        k <= names.len(),
        page_whole(batch, names),
    ensures
        prefix_matches(batch, names, prefix, row, k) == Ok::<bool, ErrorView>(
            forall|c: int|
                0 <= c < k ==> crate::scalar::is_wanted(
                    (batch.column_by_name(#[trigger] names[c])->0).values[row],
                    prefix[c],
                ),
        ),
    decreases k,
{
    if k > 0 {
        prefix_decided(batch, names, prefix, row, (k - 1) as nat);
        assert(batch.column_by_name(names[k - 1]) is Some);
    }
}

/// What a prefix lookup means: in a whole page a row matches exactly when its
/// leading columns equal the prefix, null being any null, and its next column, if there is one, lies
/// in the range.
pub proof fn prefix_row_meaning(
    batch: BatchView,
    names: Seq<Seq<char>>,
    prefix: Seq<ScalarView>,
    range: Option<(Bound<ScalarView>, Bound<ScalarView>)>,
    row: int,
)
    requires
        page_whole(batch, names),
        prefix.len() <= names.len(),
    ensures
        row_matches(batch, names, prefix, range, row) == Ok::<bool, ErrorView>(
            (forall|c: int|
                0 <= c < prefix.len() ==> crate::scalar::is_wanted(
                    (batch.column_by_name(#[trigger] names[c])->0).values[row],
                    prefix[c],
                )) && (match range {
                Some((lower, upper)) => prefix.len() < names.len() ==> crate::compound::in_range(
                    (batch.column_by_name(names[prefix.len() as int])->0).values[row],
                    lower,
                    upper,
                ),
                None => true,
            }),
        ),
{
    prefix_decided(batch, names, prefix, row, prefix.len());
    if prefix.len() < names.len() {
        assert(batch.column_by_name(names[prefix.len() as int]) is Some);
    }
}

/// A prefix lookup finds exactly the ids of the rows that match.
pub proof fn prefix_lookup_finds_matches(
    batch: BatchView,
    names: Seq<Seq<char>>,
    prefix: Seq<ScalarView>,
    range: Option<(Bound<ScalarView>, Bound<ScalarView>)>,
    id: u64,
)
    requires
        page_whole(batch, names),
        prefix.len() <= names.len(),
    ensures
        prefix_result(batch, names, prefix, range) matches Ok(found) && (found.contains(id)
            <==> exists|row: int|
            0 <= row < batch.rows && #[trigger] row_matches(batch, names, prefix, range, row)
                == Ok::<bool, ErrorView>(true) && row_id(batch)(row) == id),
{
    let fails = row_fails(batch, names, prefix, range);
    let hits = row_hits(batch, names, prefix, range);
    assert forall|row: int| 0 <= row < batch.rows implies !(#[trigger] fails(row)) by {
        prefix_row_meaning(batch, names, prefix, range, row);
    }
    crate::first::first_where_absent(batch.rows, fails);
    crate::row_set::collected_contains(batch.rows, hits, row_id(batch), id);
    let found = prefix_result(batch, names, prefix, range)->Ok_0;
    if found.contains(id) {
        let row = choose|row: int|
            0 <= row < batch.rows && #[trigger] hits(row) && row_id(batch)(row) == id;
        assert(row_matches(batch, names, prefix, range, row) == Ok::<bool, ErrorView>(true));
    }
    if exists|row: int|
        0 <= row < batch.rows && #[trigger] row_matches(batch, names, prefix, range, row) == Ok::<
            bool,
            ErrorView,
        >(true) && row_id(batch)(row) == id {
        let row = choose|row: int|
            0 <= row < batch.rows && #[trigger] row_matches(batch, names, prefix, range, row)
                == Ok::<bool, ErrorView>(true) && row_id(batch)(row) == id;
        assert(hits(row));
    }
}

/// A row matches and has the id.
pub open spec fn row_found(
    batch: BatchView,
    names: Seq<Seq<char>>,
    prefix: Seq<ScalarView>,
    range: Option<(Bound<ScalarView>, Bound<ScalarView>)>,
    row: int,
    id: u64,
) -> bool {
    &&& 0 <= row < batch.rows
    &&& row_matches(batch, names, prefix, range, row) == Ok::<bool, ErrorView>(true)
    &&& row_id(batch)(row) == id
}

/// Searching whole pages by prefix finds exactly the ids of the rows that
/// match, on whichever page they are.
pub proof fn prefix_search_finds_matches(
    pages: Seq<BatchView>,
    names: Seq<Seq<char>>,
    types: Seq<DataTypeView>,
    prefix: Seq<ScalarView>,
    range: Option<(Bound<ScalarView>, Bound<ScalarView>)>,
    id: u64,
)
    requires
        prefix.len() <= names.len(),
        forall|p: int| 0 <= p < pages.len() ==> page_whole(#[trigger] pages[p], names),
    ensures
        pages_result(
            pages,
            names,
            types,
            QueryView::PrefixLookup { prefix, range },
        ) matches Ok(found) && (found.contains(id) <==> exists|p: int, row: int|
            0 <= p < pages.len() && #[trigger] row_found(
                pages[p],
                names,
                prefix,
                range,
                row,
                id,
            )),
    decreases pages.len(),
{
    if pages.len() > 0 {
        let before = pages.drop_last();
        let last = pages.len() - 1;
        assert forall|p: int| 0 <= p < before.len() implies page_whole(
            #[trigger] before[p],
            names,
        ) by {
            assert(before[p] == pages[p]);
        }
        prefix_search_finds_matches(before, names, types, prefix, range, id);
        assert(pages[last] == pages.last());
        prefix_lookup_finds_matches(pages[last], names, prefix, range, id);
        let found = pages_result(
            pages,
            names,
            types,
            QueryView::PrefixLookup { prefix, range },
        )->Ok_0;
        if found.contains(id) {
            if exists|p: int, row: int|
                0 <= p < before.len() && #[trigger] row_found(
                    before[p],
                    names,
                    prefix,
                    range,
                    row,
                    id,
                ) {
                let (p, row) = choose|p: int, row: int|
                    0 <= p < before.len() && #[trigger] row_found(
                        before[p],
                        names,
                        prefix,
                        range,
                        row,
                        id,
                    );
                assert(row_found(pages[p], names, prefix, range, row, id));
            } else {
                let row = choose|row: int|
                    0 <= row < pages[last].rows && #[trigger] row_matches(
                        pages[last],
                        names,
                        prefix,
                        range,
                        row,
                    ) == Ok::<bool, ErrorView>(true) && row_id(pages[last])(row) == id;
                assert(row_found(pages[last], names, prefix, range, row, id));
            }
        }
        if exists|p: int, row: int|
            0 <= p < pages.len() && #[trigger] row_found(
                pages[p],
                names,
                prefix,
                range,
                row,
                id,
            ) {
            let (p, row) = choose|p: int, row: int|
                0 <= p < pages.len() && #[trigger] row_found(
                    pages[p],
                    names,
                    prefix,
                    range,
                    row,
                    id,
                );
            if p < last {
                assert(row_found(before[p], names, prefix, range, row, id));
            } else {
                assert(row_matches(pages[last], names, prefix, range, row) == Ok::<
                    bool,
                    ErrorView,
                >(true));
            }
        }
    }
}

/// Pruning loses nothing: in a whole page whose statistics cover it, a pruned
/// query finds no row.
pub proof fn pruned_page_is_empty(
    batch: BatchView,
    names: Seq<Seq<char>>,
    types: Seq<DataTypeView>,
    stats: PageStatsView,
    query: QueryView,
)
    requires
        page_whole(batch, names),
        page_covered(batch, names, stats),
        query_fits(query, names.len()),
        crate::lookup::prunes_page(stats, names.len(), query),
    ensures
        page_result(batch, names, types, query) == Ok::<Set<u64>, ErrorView>(Set::empty()),
{
    match query {
        QueryView::PrefixLookup { prefix, range } => {
            let n = names.len();
            let fails = row_fails(batch, names, prefix, range);
            let hits = row_hits(batch, names, prefix, range);
            assert forall|row: int| 0 <= row < batch.rows implies !(#[trigger] fails(row)) by {
                prefix_decided(batch, names, prefix, row, prefix.len());
                if prefix.len() < n {
                    assert(batch.column_by_name(names[prefix.len() as int]) is Some);
                }
            }
            assert forall|row: int| 0 <= row < batch.rows implies !(#[trigger] hits(row)) by {
                prefix_decided(batch, names, prefix, row, prefix.len());
                if hits(row) {
                    if exists|i: int|
                        0 <= i < prefix.len() && #[trigger] crate::lookup::prunes_equality(
                            stats,
                            n,
                            i,
                            prefix[i],
                        ) {
                        let i = choose|i: int|
                            0 <= i < prefix.len() && #[trigger] crate::lookup::prunes_equality(
                                stats,
                                n,
                                i,
                                prefix[i],
                            );
                        let values = (batch.column_by_name(names[i])->0).values;
                        crate::lookup::equality_pruning_sound(
                            stats,
                            n,
                            i,
                            prefix[i],
                            values,
                            row,
                        );
                    } else {
                        let (lower, upper) = range->0;
                        let c = prefix.len() as int;
                        let values = (batch.column_by_name(names[c])->0).values;
                        crate::lookup::range_pruning_sound(
                            stats,
                            n,
                            c,
                            lower,
                            upper,
                            values,
                            row,
                        );
                    }
                }
            }
            crate::first::first_where_absent(batch.rows, fails);
            crate::row_set::collected_nothing(batch.rows, hits, row_id(batch));
        },
        _ => {},
    }
}

/// The pages that are not pruned, in order.
pub open spec fn unpruned(
    pages: Seq<BatchView>,
    stats: Seq<PageStatsView>,
    n: nat,
    query: QueryView,
) -> Seq<BatchView>
    decreases pages.len(),
{
    if pages.len() == 0 {
        Seq::empty()
    } else {
        let rest = unpruned(pages.drop_last(), stats.drop_last(), n, query);
        if crate::lookup::prunes_page(stats.last(), n, query) {
            rest
        } else {
            rest.push(pages.last())
        }
    }
}

/// The candidate pages are the unpruned ones: their numbers point at them.
pub proof fn candidates_are_unpruned(
    pages: Seq<BatchView>,
    stats: Seq<PageStatsView>,
    n: nat,
    query: QueryView,
)
    requires
        pages.len() == stats.len(),
        forall|p: int| 0 <= p < stats.len() ==> (#[trigger] stats[p]).page_number == p,
    ensures
        crate::lookup::candidates(stats, n, query).len() == unpruned(pages, stats, n, query).len(),
        forall|k: int|
            0 <= k < unpruned(pages, stats, n, query).len() ==> {
                let p = #[trigger] crate::lookup::candidates(stats, n, query)[k];
                p < pages.len() && unpruned(pages, stats, n, query)[k] == pages[p as int]
            },
    decreases pages.len(),
{
    if pages.len() > 0 {
        let before = stats.drop_last();
        assert forall|p: int| 0 <= p < before.len() implies (#[trigger] before[p]).page_number
            == p by {
            assert(before[p] == stats[p]);
        }
        candidates_are_unpruned(pages.drop_last(), before, n, query);
        assert(stats.last() == stats[stats.len() - 1]);
        assert forall|k: int| 0 <= k < unpruned(pages, stats, n, query).len() implies {
            let p = #[trigger] crate::lookup::candidates(stats, n, query)[k];
            p < pages.len() && unpruned(pages, stats, n, query)[k] == pages[p as int]
        } by {
            let rest = crate::lookup::candidates(before, n, query);
            if k < rest.len() {
                let p = rest[k];
                assert(pages.drop_last()[p as int] == pages[p as int]);
            }
        }
    }
}

/// Searching the candidate pages finds what searching all pages would: where
/// the pages are whole and their statistics cover them, leaving out the pruned
/// ones changes nothing.
pub proof fn candidates_suffice(
    pages: Seq<BatchView>,
    stats: Seq<PageStatsView>,
    names: Seq<Seq<char>>,
    types: Seq<DataTypeView>,
    query: QueryView,
)
    requires
        pages.len() == stats.len(),
        query_fits(query, names.len()),
        forall|p: int|
            0 <= p < pages.len() ==> page_whole(#[trigger] pages[p], names) && page_covered(
                pages[p],
                names,
                stats[p],
            ),
    ensures
        pages_result(pages, names, types, query) == pages_result(
            unpruned(pages, stats, names.len(), query),
            names,
            types,
            query,
        ),
    decreases pages.len(),
{
    if pages.len() > 0 {
        let n = names.len();
        let earlier = pages.drop_last();
        let before = stats.drop_last();
        assert forall|p: int| 0 <= p < earlier.len() implies page_whole(
            #[trigger] earlier[p],
            names,
        ) && page_covered(earlier[p], names, before[p]) by {
            assert(earlier[p] == pages[p]);
            assert(before[p] == stats[p]);
        }
        candidates_suffice(earlier, before, names, types, query);
        let last = pages.len() - 1;
        assert(pages[last] == pages.last());
        let rest = unpruned(earlier, before, n, query);
        if crate::lookup::prunes_page(stats.last(), n, query) {
            pruned_page_is_empty(pages.last(), names, types, stats.last(), query);
            match pages_result(rest, names, types, query) {
                Ok(s) => {
                    assert(s.union(Set::empty()) =~= s);
                },
                Err(_) => {},
            }
        } else {
            assert(rest.push(pages.last()).drop_last() =~= rest);
        }
    }
}

/// Remapping keeps the statistics of a page valid: they cover what is left of
/// each value column, so the lookup file can be kept as it is.
pub proof fn remap_keeps_cover(
    batch: BatchView,
    names: Seq<Seq<char>>,
    stats: PageStatsView,
    mapping: Map<u64, Option<u64>>,
)
    requires
        crate::flat::ends_in_row_ids(batch),
        batch.rows <= usize::MAX,
        page_covered(batch, names, stats),
        forall|c: int|
            0 <= c < names.len() ==> (batch.index_of(#[trigger] names[c]) matches Some(i) ==> i
                < batch.columns.len() - 1),
    ensures
        page_covered(crate::flat::remapped_page(batch, mapping), names, stats),
{
    let page = crate::flat::remapped_page(batch, mapping);
    let ids = batch.columns.last().values;
    let kept = crate::flat::kept_rows(ids, mapping);
    assert(batch.columns[batch.columns.len() - 1] == batch.columns.last());
    crate::flat::remap_keeps_rows(ids, mapping);
    assert forall|c: int| 0 <= c < names.len() implies (page.column_by_name(
        #[trigger] names[c],
    ) matches Some(col) ==> col.values.len() == page.rows && crate::lookup::stats_cover(
        col.values,
        stats.mins[c],
        stats.maxs[c],
        stats.null_counts[c],
    )) by {
        assert(page.index_of(names[c]) == batch.index_of(names[c]));
        if let Some(i) = batch.index_of(names[c]) {
            crate::first::first_where_spec(
                batch.schema.fields.len(),
                crate::batch::is_named(batch.schema.fields, names[c]),
            );
            let old = batch.columns[i];
            let new = page.columns[i];
            assert(batch.column_by_name(names[c]) == Some(old));
            assert forall|k: int| 0 <= k < new.values.len() implies kept[k] < old.values.len()
                && #[trigger] new.values[k] == old.values[kept[k] as int] by {}
        }
    }
}

/// What was found is mapped: the new ids are those of the ids found before,
/// except for rows that were deleted.
pub open spec fn results_mapped(
    before: Result<Set<u64>, ErrorView>,
    after: Result<Set<u64>, ErrorView>,
    mapping: Map<u64, Option<u64>>,
) -> bool {
    &&& before is Ok
    &&& after is Ok
    &&& forall|new_id: u64| #[trigger]
        after->Ok_0.contains(new_id) <==> exists|id: u64| #[trigger]
            before->Ok_0.contains(id) && crate::flat::remapped_id(mapping, id) == Some(new_id)
}

/// A page as it is stored: its row ids last, and the value columns before them.
pub open spec fn stored_page(batch: BatchView, names: Seq<Seq<char>>) -> bool {
    &&& crate::flat::ends_in_row_ids(batch)
    &&& batch.rows <= usize::MAX
    &&& page_whole(batch, names)
    &&& batch.index_of(COMPOUND_IDS_COLUMN@) == Some(batch.columns.len() - 1)
    &&& forall|c: int|
        0 <= c < names.len() ==> batch.index_of(#[trigger] names[c])->0 < batch.columns.len() - 1
}

/// Where the kept rows of a page match when they matched before, what is
/// found in it is mapped.
proof fn kept_rows_map_results(
    batch: BatchView,
    names: Seq<Seq<char>>,
    mapping: Map<u64, Option<u64>>,
    old_hit: spec_fn(int) -> bool,
    new_hit: spec_fn(int) -> bool,
)
    requires
        stored_page(batch, names),
        forall|k: int|
            0 <= k < crate::flat::remapped_page(batch, mapping).rows ==> #[trigger] new_hit(k)
                == old_hit(
                crate::flat::kept_rows(batch.columns.last().values, mapping)[k] as int,
            ),
    ensures
        results_mapped(
            Ok(crate::row_set::collected(batch.rows, old_hit, row_id(batch))),
            Ok(
                crate::row_set::collected(
                    crate::flat::remapped_page(batch, mapping).rows,
                    new_hit,
                    row_id(crate::flat::remapped_page(batch, mapping)),
                ),
            ),
            mapping,
        ),
{
    let page = crate::flat::remapped_page(batch, mapping);
    let ids = batch.columns.last().values;
    let kept = crate::flat::kept_rows(ids, mapping);
    let before = crate::row_set::collected(batch.rows, old_hit, row_id(batch));
    let after = crate::row_set::collected(page.rows, new_hit, row_id(page));
    assert(batch.columns[batch.columns.len() - 1] == batch.columns.last());
    crate::flat::remap_keeps_rows(ids, mapping);
    assert(page.index_of(COMPOUND_IDS_COLUMN@) == batch.index_of(COMPOUND_IDS_COLUMN@));
    assert forall|k: int| 0 <= k < page.rows implies {
        let row = #[trigger] kept[k] as int;
        &&& 0 <= row < batch.rows
        &&& crate::flat::remapped_id(mapping, row_id(batch)(row)) == Some(row_id(page)(k))
    } by {}
    assert forall|new_id: u64| #[trigger]
        after.contains(new_id) <==> exists|id: u64| #[trigger]
            before.contains(id) && crate::flat::remapped_id(mapping, id) == Some(new_id) by {
        crate::row_set::collected_contains(page.rows, new_hit, row_id(page), new_id);
        if after.contains(new_id) {
            let k = choose|k: int|
                0 <= k < page.rows && #[trigger] new_hit(k) && row_id(page)(k) == new_id;
            let row = kept[k] as int;
            let id = row_id(batch)(row);
            crate::row_set::collected_contains(batch.rows, old_hit, row_id(batch), id);
            assert(old_hit(row));
            assert(before.contains(id));
        }
        if exists|id: u64| #[trigger]
            before.contains(id) && crate::flat::remapped_id(mapping, id) == Some(new_id) {
            let id = choose|id: u64| #[trigger]
                before.contains(id) && crate::flat::remapped_id(mapping, id) == Some(new_id);
            crate::row_set::collected_contains(batch.rows, old_hit, row_id(batch), id);
            let row = choose|row: int|
                0 <= row < batch.rows && #[trigger] old_hit(row) && row_id(batch)(row) == id;
            assert(crate::batch::u64_of(ids[row]) == id);
            assert(kept.contains(row as usize));
            let k = choose|k: int| 0 <= k < kept.len() && kept[k] == row as usize;
            assert(new_hit(k));
        }
    }
    let found = Ok::<Set<u64>, ErrorView>(before);
    let mapped = Ok::<Set<u64>, ErrorView>(after);
    assert(found->Ok_0 == before && mapped->Ok_0 == after);
    assert(results_mapped(found, mapped, mapping));
}

/// The kept rows of a page have their values after remapping.
pub(crate) proof fn kept_values(
    batch: BatchView,
    names: Seq<Seq<char>>,
    mapping: Map<u64, Option<u64>>,
)
    requires
        stored_page(batch, names),
    ensures
        ({
            let page = crate::flat::remapped_page(batch, mapping);
            let kept = crate::flat::kept_rows(batch.columns.last().values, mapping);
            &&& page_whole(page, names)
            &&& forall|k: int|
                0 <= k < page.rows ==> (#[trigger] kept[k]) < batch.rows
            &&& forall|c: int, k: int|
                #![trigger page.column_by_name(names[c]), kept[k]]
                0 <= c < names.len() && 0 <= k < page.rows ==> (page.column_by_name(
                    names[c],
                )->0).values[k] == (batch.column_by_name(names[c])->0).values[kept[k] as int]
            &&& forall|c: int|
                0 <= c < names.len() ==> (page.column_by_name(#[trigger] names[c])->0).values.len()
                    == page.rows && (batch.column_by_name(names[c])->0).values.len() == batch.rows
        }),
{
    let page = crate::flat::remapped_page(batch, mapping);
    let ids = batch.columns.last().values;
    let kept = crate::flat::kept_rows(ids, mapping);
    assert(batch.columns[batch.columns.len() - 1] == batch.columns.last());
    crate::flat::remap_keeps_rows(ids, mapping);
    assert(page.index_of(COMPOUND_IDS_COLUMN@) == batch.index_of(COMPOUND_IDS_COLUMN@));
    assert forall|c: int| 0 <= c < names.len() implies {
        &&& page.column_by_name(#[trigger] names[c]) is Some
        &&& (page.column_by_name(names[c])->0).values.len() == page.rows
        &&& (batch.column_by_name(names[c])->0).values.len() == batch.rows
        &&& forall|k: int|
            0 <= k < page.rows ==> (page.column_by_name(names[c])->0).values[k] == (
            batch.column_by_name(names[c])->0).values[(#[trigger] kept[k]) as int]
    } by {
        assert(batch.column_by_name(names[c]) is Some);
        assert(page.index_of(names[c]) == batch.index_of(names[c]));
        crate::first::first_where_spec(
            batch.schema.fields.len(),
            crate::batch::is_named(batch.schema.fields, names[c]),
        );
        let i = batch.index_of(names[c])->0;
        assert(batch.columns[i].values.len() == batch.rows);
        assert(page.columns[i] == crate::batch::gathered(batch.columns[i], kept));
    }
}

/// Remapping maps what a prefix lookup finds in a page.
pub proof fn remapped_prefix(
    batch: BatchView,
    names: Seq<Seq<char>>,
    prefix: Seq<ScalarView>,
    range: Option<(Bound<ScalarView>, Bound<ScalarView>)>,
    mapping: Map<u64, Option<u64>>,
)
    requires
        stored_page(batch, names),
        prefix.len() <= names.len(),
    ensures
        results_mapped(
            prefix_result(batch, names, prefix, range),
            prefix_result(
                crate::flat::remapped_page(batch, mapping),
                names,
                prefix,
                range,
            ),
            mapping,
        ),
{
    let page = crate::flat::remapped_page(batch, mapping);
    let kept = crate::flat::kept_rows(batch.columns.last().values, mapping);
    let old_hit = row_hits(batch, names, prefix, range);
    let new_hit = row_hits(page, names, prefix, range);
    kept_values(batch, names, mapping);
    prefix_lookup_finds_matches(batch, names, prefix, range, 0);
    prefix_lookup_finds_matches(page, names, prefix, range, 0);
    assert forall|k: int| 0 <= k < page.rows implies #[trigger] new_hit(k) == old_hit(
        kept[k] as int,
    ) by {
        prefix_row_meaning(page, names, prefix, range, k);
        prefix_row_meaning(batch, names, prefix, range, kept[k] as int);
        assert forall|c: int| 0 <= c < names.len() implies (page.column_by_name(
            #[trigger] names[c],
        )->0).values[k] == (batch.column_by_name(names[c])->0).values[kept[k] as int] by {}
        if prefix.len() < names.len() {
            assert(page.column_by_name(names[prefix.len() as int]) is Some);
        }
    }
    kept_rows_map_results(batch, names, mapping, old_hit, new_hit);
}

/// Rows of two pages with the same values have the same key.
pub proof fn same_values_same_key(
    a: BatchView,
    i: int,
    b: BatchView,
    j: int,
    names: Seq<Seq<char>>,
    types: Seq<DataTypeView>,
)
    requires
        rows_faithful(a, names, types),
        rows_faithful(b, names, types),
        names.len() > 0,
        0 <= i < a.rows,
        0 <= j < b.rows,
        forall|c: int|
            0 <= c < names.len() ==> (#[trigger] value_columns(a, names)[c]).values[i].key
                == value_columns(b, names)[c].values[j].key,
    ensures
        page_rows(a, names, types)->Ok_0[i] == page_rows(b, names, types)->Ok_0[j],
{
    let x = value_columns(a, names);
    let y = value_columns(b, names);
    crate::rows::same_values_compare_equal(x, i, y, j, names.len());
    let rows = page_rows(a, names, types)->Ok_0;
    let others = crate::rows::converted_rows(types, y)->Ok_0;
    assert(page_rows(b, names, types)->Ok_0 == others);
    same_bytes(rows[i], others[j]);
}

/// Remapping maps what a key range finds in a page, where the keys of the page
/// are known before and after.
pub proof fn remapped_range(
    batch: BatchView,
    names: Seq<Seq<char>>,
    types: Seq<DataTypeView>,
    lower: Bound<Seq<u8>>,
    upper: Bound<Seq<u8>>,
    mapping: Map<u64, Option<u64>>,
)
    requires
        stored_page(batch, names),
        names.len() > 0,
        rows_faithful(batch, names, types),
        rows_faithful(crate::flat::remapped_page(batch, mapping), names, types),
    ensures
        results_mapped(
            key_range_result(batch, names, types, lower, upper),
            key_range_result(
                crate::flat::remapped_page(batch, mapping),
                names,
                types,
                lower,
                upper,
            ),
            mapping,
        ),
{
    let page = crate::flat::remapped_page(batch, mapping);
    let kept = crate::flat::kept_rows(batch.columns.last().values, mapping);
    let a = value_columns(page, names);
    let b = value_columns(batch, names);
    kept_values(batch, names, mapping);
    let rows = page_rows(page, names, types)->Ok_0;
    let all = page_rows(batch, names, types)->Ok_0;
    let old_hit = row_between(all, lower, upper);
    let new_hit = row_between(rows, lower, upper);
    assert forall|k: int| 0 <= k < page.rows implies #[trigger] new_hit(k) == old_hit(
        kept[k] as int,
    ) by {
        let row = kept[k] as int;
        assert forall|c: int| 0 <= c < a.len() implies (#[trigger] a[c]).values[k].key
            == b[c].values[row].key by {
            assert(a[c] == page.column_by_name(names[c])->0);
            assert(b[c] == batch.column_by_name(names[c])->0);
        }
        same_values_same_key(page, k, batch, row, names, types);
    }
    kept_rows_map_results(batch, names, mapping, old_hit, new_hit);
}

/// The pages with their row ids mapped.
pub open spec fn remapped_pages(
    pages: Seq<BatchView>,
    mapping: Map<u64, Option<u64>>,
) -> Seq<BatchView> {
    Seq::new(pages.len(), |p: int| crate::flat::remapped_page(pages[p], mapping))
}

/// Remapping maps what a search finds: where it maps what is found in each page,
/// it maps what is found in all of them.
pub proof fn remapped_search(
    pages: Seq<BatchView>,
    names: Seq<Seq<char>>,
    types: Seq<DataTypeView>,
    query: QueryView,
    mapping: Map<u64, Option<u64>>,
)
    requires
        forall|p: int|
            0 <= p < pages.len() ==> results_mapped(
                page_result(#[trigger] pages[p], names, types, query),
                page_result(
                    crate::flat::remapped_page(pages[p], mapping),
                    names,
                    types,
                    query,
                ),
                mapping,
            ),
    ensures
        results_mapped(
            pages_result(pages, names, types, query),
            pages_result(remapped_pages(pages, mapping), names, types, query),
            mapping,
        ),
    decreases pages.len(),
{
    if pages.len() > 0 {
        let early = pages.drop_last();
        let after_pages = remapped_pages(pages, mapping);
        assert forall|p: int| 0 <= p < early.len() implies results_mapped(
            page_result(#[trigger] early[p], names, types, query),
            page_result(crate::flat::remapped_page(early[p], mapping), names, types, query),
            mapping,
        ) by {
            assert(early[p] == pages[p]);
        }
        remapped_search(early, names, types, query, mapping);
        assert(after_pages.drop_last() =~= remapped_pages(early, mapping));
        let last = pages[pages.len() - 1];
        assert(last == pages.last());
        assert(after_pages.last() == crate::flat::remapped_page(last, mapping));
        let before = pages_result(pages, names, types, query)->Ok_0;
        let after = pages_result(after_pages, names, types, query)->Ok_0;
        let old_last = page_result(last, names, types, query)->Ok_0;
        let old_early = pages_result(early, names, types, query)->Ok_0;
        let new_last = page_result(after_pages.last(), names, types, query)->Ok_0;
        let new_early = pages_result(after_pages.drop_last(), names, types, query)->Ok_0;
        assert forall|new_id: u64| #[trigger]
            after.contains(new_id) <==> exists|id: u64| #[trigger]
                before.contains(id) && crate::flat::remapped_id(mapping, id) == Some(new_id) by {
            if after.contains(new_id) {
                if new_last.contains(new_id) {
                    let id = choose|id: u64| #[trigger]
                        old_last.contains(id) && crate::flat::remapped_id(mapping, id) == Some(
                            new_id,
                        );
                    assert(before.contains(id));
                } else {
                    assert(new_early.contains(new_id));
                    let id = choose|id: u64| #[trigger]
                        old_early.contains(id) && crate::flat::remapped_id(mapping, id) == Some(
                            new_id,
                        );
                    assert(before.contains(id));
                }
            }
            if exists|id: u64| #[trigger]
                before.contains(id) && crate::flat::remapped_id(mapping, id) == Some(new_id) {
                let id = choose|id: u64| #[trigger]
                    before.contains(id) && crate::flat::remapped_id(mapping, id) == Some(new_id);
                if old_last.contains(id) {
                    assert(new_last.contains(new_id));
                } else {
                    assert(old_early.contains(id));
                    assert(new_early.contains(new_id));
                }
            }
        }
    }
}

/// After remapping, a prefix lookup over all pages finds the new ids of the rows
/// it found before, except for those that were deleted.
pub proof fn remapped_index_search(
    pages: Seq<BatchView>,
    names: Seq<Seq<char>>,
    types: Seq<DataTypeView>,
    prefix: Seq<ScalarView>,
    range: Option<(Bound<ScalarView>, Bound<ScalarView>)>,
    mapping: Map<u64, Option<u64>>,
)
    requires
        prefix.len() <= names.len(),
        forall|p: int| 0 <= p < pages.len() ==> stored_page(#[trigger] pages[p], names),
    ensures
        ({
            let query = QueryView::PrefixLookup { prefix, range };
            results_mapped(
                pages_result(pages, names, types, query),
                pages_result(remapped_pages(pages, mapping), names, types, query),
                mapping,
            )
        }),
{
    let query = QueryView::PrefixLookup { prefix, range };
    assert forall|p: int| 0 <= p < pages.len() implies results_mapped(
        page_result(#[trigger] pages[p], names, types, query),
        page_result(crate::flat::remapped_page(pages[p], mapping), names, types, query),
        mapping,
    ) by {
        remapped_prefix(pages[p], names, prefix, range, mapping);
    }
    remapped_search(pages, names, types, query, mapping);
}

/// A row of a page lies in a key range and has the id.
pub open spec fn key_row_found(
    batch: BatchView,
    names: Seq<Seq<char>>,
    types: Seq<DataTypeView>,
    lower: Bound<Seq<u8>>,
    upper: Bound<Seq<u8>>,
    row: int,
    id: u64,
) -> bool {
    &&& page_rows(batch, names, types) matches Ok(rows) && 0 <= row < rows.len()
        && crate::compound::key_in_range(rows[row], lower, upper)
    &&& row_id(batch)(row) == id
}

/// Searching pages by key range finds exactly the ids of the rows whose keys lie
/// in the range, on whichever page they are.
pub proof fn range_search_finds_matches(
    pages: Seq<BatchView>,
    names: Seq<Seq<char>>,
    types: Seq<DataTypeView>,
    lower: Bound<Seq<u8>>,
    upper: Bound<Seq<u8>>,
    id: u64,
)
    requires
        forall|p: int|
            0 <= p < pages.len() ==> page_rows(#[trigger] pages[p], names, types) is Ok,
    ensures
        pages_result(pages, names, types, QueryView::Range { lower, upper }) matches Ok(found) && (
        found.contains(id) <==> exists|p: int, row: int|
            0 <= p < pages.len() && #[trigger] key_row_found(
                pages[p],
                names,
                types,
                lower,
                upper,
                row,
                id,
            )),
    decreases pages.len(),
{
    if pages.len() > 0 {
        let before = pages.drop_last();
        let last = pages.len() - 1;
        assert forall|p: int| 0 <= p < before.len() implies page_rows(
            #[trigger] before[p],
            names,
            types,
        ) is Ok by {
            assert(before[p] == pages[p]);
        }
        range_search_finds_matches(before, names, types, lower, upper, id);
        let page = pages[last];
        assert(page == pages.last());
        let rows = page_rows(page, names, types)->Ok_0;
        let hit = row_between(rows, lower, upper);
        crate::row_set::collected_contains(rows.len(), hit, row_id(page), id);
        let found = pages_result(pages, names, types, QueryView::Range { lower, upper })->Ok_0;
        if found.contains(id) {
            if exists|p: int, row: int|
                0 <= p < before.len() && #[trigger] key_row_found(
                    before[p],
                    names,
                    types,
                    lower,
                    upper,
                    row,
                    id,
                ) {
                let (p, row) = choose|p: int, row: int|
                    0 <= p < before.len() && #[trigger] key_row_found(
                        before[p],
                        names,
                        types,
                        lower,
                        upper,
                        row,
                        id,
                    );
                assert(key_row_found(pages[p], names, types, lower, upper, row, id));
            } else {
                let row = choose|row: int|
                    0 <= row < rows.len() && #[trigger] hit(row) && row_id(page)(row) == id;
                assert(key_row_found(pages[last], names, types, lower, upper, row, id));
            }
        }
        if exists|p: int, row: int|
            0 <= p < pages.len() && #[trigger] key_row_found(
                pages[p],
                names,
                types,
                lower,
                upper,
                row,
                id,
            ) {
            let (p, row) = choose|p: int, row: int|
                0 <= p < pages.len() && #[trigger] key_row_found(
                    pages[p],
                    names,
                    types,
                    lower,
                    upper,
                    row,
                    id,
                );
            if p < last {
                assert(key_row_found(before[p], names, types, lower, upper, row, id));
            } else {
                assert(hit(row));
            }
        }
    }
}

/// Looking a key up in pages whose rows are in key order is searching them for
/// the range that holds only the key.
pub proof fn full_key_search_is_a_range(
    pages: Seq<BatchView>,
    names: Seq<Seq<char>>,
    types: Seq<DataTypeView>,
    key: Seq<u8>,
)
    requires
        forall|p: int|
            0 <= p < pages.len() ==> (page_rows(#[trigger] pages[p], names, types) matches Ok(rows)
                ==> in_byte_order(rows)),
    ensures
        pages_result(pages, names, types, QueryView::FullKeyLookup(key)) == pages_result(
            pages,
            names,
            types,
            QueryView::Range { lower: Bound::Included(key), upper: Bound::Included(key) },
        ),
    decreases pages.len(),
{
    if pages.len() > 0 {
        let before = pages.drop_last();
        assert forall|p: int| 0 <= p < before.len() implies (page_rows(
            #[trigger] before[p],
            names,
            types,
        ) matches Ok(rows) ==> in_byte_order(rows)) by {
            assert(before[p] == pages[p]);
        }
        full_key_search_is_a_range(before, names, types, key);
        assert(pages[pages.len() - 1] == pages.last());
        full_key_is_a_range(pages.last(), names, types, key);
    }
}

/// The rows of a page in ascending byte order.
pub open spec fn in_byte_order(rows: Seq<Seq<u8>>) -> bool {
    forall|i: int, j: int|
        0 <= i <= j < rows.len() ==> crate::compound::bytes_compare(
            #[trigger] rows[i],
            #[trigger] rows[j],
        ) != Order::Greater
}

/// The ids of all rows of a page.
pub open spec fn all_ids(batch: BatchView, rows: nat) -> Set<u64> {
    crate::row_set::collected(rows, |row: int| true, row_id(batch))
}

/// Looking a key up is searching the range that holds only the key, in a page
/// whose rows are in key order.
pub proof fn full_key_is_a_range(
    batch: BatchView,
    names: Seq<Seq<char>>,
    types: Seq<DataTypeView>,
    key: Seq<u8>,
)
    requires
        page_rows(batch, names, types) matches Ok(rows) ==> in_byte_order(rows),
    ensures
        full_key_result(batch, names, types, key) == key_range_result(
            batch,
            names,
            types,
            Bound::Included(key),
            Bound::Included(key),
        ),
{
    if let Ok(rows) = page_rows(batch, names, types) {
        scan_loses_nothing(rows, key, row_id(batch));
        let hit = row_is(rows, key);
        let between = row_between(rows, Bound::Included(key), Bound::Included(key));
        assert forall|i: int| 0 <= i < rows.len() implies #[trigger] hit(i) == #[trigger] between(
            i,
        ) by {
            same_bytes(rows[i], key);
        }
        crate::row_set::collected_same(rows.len(), hit, between, row_id(batch));
    }
}

/// The range without bounds finds every row.
pub proof fn unbounded_range_is_all(
    batch: BatchView,
    names: Seq<Seq<char>>,
    types: Seq<DataTypeView>,
)
    requires
        page_rows(batch, names, types) is Ok,
    ensures
        key_range_result(batch, names, types, Bound::Unbounded, Bound::Unbounded) == Ok::<
            Set<u64>,
            ErrorView,
        >(all_ids(batch, page_rows(batch, names, types)->Ok_0.len())),
{
    let rows = page_rows(batch, names, types)->Ok_0;
    crate::row_set::collected_same(
        rows.len(),
        row_between(rows, Bound::Unbounded, Bound::Unbounded),
        |row: int| true,
        row_id(batch),
    );
}

/// A key splits a page in two: the ranges below it and from it on make up all
/// rows and, where no two rows have one id, have none in common.
pub proof fn key_splits_page(
    batch: BatchView,
    names: Seq<Seq<char>>,
    types: Seq<DataTypeView>,
    key: Seq<u8>,
)
    requires
        page_rows(batch, names, types) is Ok,
    ensures
        ({
            let rows = page_rows(batch, names, types)->Ok_0;
            let below = key_range_result(
                batch,
                names,
                types,
                Bound::Unbounded,
                Bound::Excluded(key),
            )->Ok_0;
            let from = key_range_result(
                batch,
                names,
                types,
                Bound::Included(key),
                Bound::Unbounded,
            )->Ok_0;
            &&& below.union(from) == all_ids(batch, rows.len())
            &&& (forall|i: int, j: int|
                0 <= i < j < rows.len() ==> #[trigger] row_id(batch)(i) != #[trigger] row_id(batch)(
                    j,
                )) ==> below.disjoint(from)
        }),
{
    let rows = page_rows(batch, names, types)->Ok_0;
    let n = rows.len();
    let id = row_id(batch);
    let low = row_between(rows, Bound::Unbounded, Bound::Excluded(key));
    let high = row_between(rows, Bound::Included(key), Bound::Unbounded);
    let any = |row: int| true;
    let below = crate::row_set::collected(n, low, id);
    let from = crate::row_set::collected(n, high, id);
    let all = crate::row_set::collected(n, any, id);
    assert forall|x: u64| below.union(from).contains(x) <==> all.contains(x) by {
        crate::row_set::collected_contains(n, low, id, x);
        crate::row_set::collected_contains(n, high, id, x);
        crate::row_set::collected_contains(n, any, id, x);
        if all.contains(x) {
            let i = choose|i: int| 0 <= i < n && #[trigger] any(i) && id(i) == x;
            assert(low(i) || high(i));
        }
        if below.contains(x) {
            let i = choose|i: int| 0 <= i < n && #[trigger] low(i) && id(i) == x;
            assert(any(i));
        }
        if from.contains(x) {
            let i = choose|i: int| 0 <= i < n && #[trigger] high(i) && id(i) == x;
            assert(any(i));
        }
    }
    assert(below.union(from) =~= all);
    if forall|i: int, j: int| 0 <= i < j < n ==> #[trigger] id(i) != #[trigger] id(j) {
        assert forall|x: u64| !(below.contains(x) && from.contains(x)) by {
            crate::row_set::collected_contains(n, low, id, x);
            crate::row_set::collected_contains(n, high, id, x);
            if below.contains(x) && from.contains(x) {
                let i = choose|i: int| 0 <= i < n && #[trigger] low(i) && id(i) == x;
                let j = choose|j: int| 0 <= j < n && #[trigger] high(j) && id(j) == x;
                if i < j {
                    assert(id(i) != id(j));
                } else if j < i {
                    assert(id(j) != id(i));
                }
            }
        }
    }
}

/// Stopping a key scan at the first greater row loses nothing where the rows
/// are in order.
pub proof fn scan_loses_nothing(rows: Seq<Seq<u8>>, key: Seq<u8>, id: spec_fn(int) -> u64)
    requires
        forall|i: int, j: int|
            0 <= i <= j < rows.len() ==> crate::compound::bytes_compare(
                #[trigger] rows[i],
                #[trigger] rows[j],
            ) != Order::Greater,
    ensures
        crate::row_set::collected(scan_end(rows, key), row_is(rows, key), id)
            == crate::row_set::collected(rows.len(), row_is(rows, key), id),
{
    let past = row_exceeds(rows, key);
    let hit = row_is(rows, key);
    crate::first::first_where_spec(rows.len(), past);
    let end = scan_end(rows, key);
    assert forall|i: int| end <= i < rows.len() implies !(#[trigger] hit(i)) by {
        let e = end as int;
        assert(past(e));
        if rows[i] == key {
            assert(crate::compound::bytes_compare(rows[e], rows[i]) != Order::Greater);
        }
    }
    crate::row_set::collected_prefix(end, rows.len(), hit, id);
}

/// A row id is a fragment and an offset in it: an id belongs to the fragment
/// `f` exactly when it is `f * 2^32` and a 32-bit offset more.
pub proof fn ids_belong_to_their_fragment(fragment: u32, offset: u32, id: u64)
    ensures
        fragment_of((fragment * 0x1_0000_0000 + offset) as u64) == fragment,
        id == fragment * 0x1_0000_0000 + offset ==> fragment_of(id) == fragment,
        fragment_of(id) == fragment <==> fragment * 0x1_0000_0000 <= id < (fragment + 1)
            * 0x1_0000_0000,
{
    assert((id >> 32) as u32 == id / 0x1_0000_0000) by (bit_vector);
    let other = (fragment * 0x1_0000_0000 + offset) as u64;
    assert((other >> 32) as u32 == other / 0x1_0000_0000) by (bit_vector);
}

/// Some row of a page belongs to a fragment.
pub open spec fn page_reaches(page: BatchView, fragment: u32) -> bool {
    exists|row: int| #[trigger] row_in_fragment(page, row, fragment)
}

/// The id of a row is that of a fragment and an offset.
pub open spec fn row_in_fragment(page: BatchView, row: int, fragment: u32) -> bool {
    &&& 0 <= row < page.rows
    &&& fragment * 0x1_0000_0000 <= row_id(page)(row) < (fragment + 1) * 0x1_0000_0000
}

/// The included fragments are exactly those that some row of some page belongs
/// to; and they are known exactly when every page has row ids.
pub proof fn included_fragments_are_those_of_rows(pages: Seq<BatchView>, fragment: u32)
    ensures
        included_fragments(pages) is Ok <==> forall|p: int|
            0 <= p < pages.len() ==> (#[trigger] pages[p]).column_by_name(
                COMPOUND_IDS_COLUMN@,
            ) is Some,
        included_fragments(pages) matches Ok(found) ==> (found.contains(fragment) <==> exists|
            p: int,
        |
            0 <= p < pages.len() && #[trigger] page_reaches(pages[p], fragment)),
    decreases pages.len(),
{
    if pages.len() > 0 {
        let before = pages.drop_last();
        let last = pages[pages.len() - 1];
        assert(last == pages.last());
        included_fragments_are_those_of_rows(before, fragment);
        page_fragments_are_those_of_rows(last, fragment);
        if included_fragments(pages) is Ok {
            assert forall|p: int| 0 <= p < pages.len() implies (
            #[trigger] pages[p]).column_by_name(COMPOUND_IDS_COLUMN@) is Some by {
                if p < before.len() {
                    assert(before[p] == pages[p]);
                }
            }
            if exists|p: int| 0 <= p < pages.len() && #[trigger] page_reaches(pages[p], fragment) {
                let p = choose|p: int|
                    0 <= p < pages.len() && #[trigger] page_reaches(pages[p], fragment);
                if p < before.len() {
                    assert(page_reaches(before[p], fragment));
                }
            }
            if exists|p: int| 0 <= p < before.len() && #[trigger] page_reaches(before[p], fragment) {
                let p = choose|p: int|
                    0 <= p < before.len() && #[trigger] page_reaches(before[p], fragment);
                assert(page_reaches(pages[p], fragment));
            }
            if page_reaches(last, fragment) {
                assert(page_reaches(pages[pages.len() - 1], fragment));
            }
        } else if forall|p: int|
            0 <= p < pages.len() ==> (#[trigger] pages[p]).column_by_name(
                COMPOUND_IDS_COLUMN@,
            ) is Some {
            assert forall|p: int| 0 <= p < before.len() implies (
            #[trigger] before[p]).column_by_name(COMPOUND_IDS_COLUMN@) is Some by {
                assert(before[p] == pages[p]);
            }
        }
    }
}

/// The fragments of a page are those that its rows belong to.
pub proof fn page_fragments_are_those_of_rows(page: BatchView, fragment: u32)
    ensures
        fragments_of(page.rows, row_id(page)).contains(fragment) <==> page_reaches(
            page,
            fragment,
        ),
{
    let id = row_id(page);
    fragments_of_contains(page.rows, id, fragment);
    if fragments_of(page.rows, id).contains(fragment) {
        let row = choose|row: int|
            0 <= row < page.rows && fragment_of(#[trigger] id(row)) == fragment;
        ids_belong_to_their_fragment(fragment, 0, id(row));
        assert(row_in_fragment(page, row, fragment));
    }
    if page_reaches(page, fragment) {
        let row = choose|row: int| #[trigger] row_in_fragment(page, row, fragment);
        ids_belong_to_their_fragment(fragment, 0, id(row));
    }
}

/// The id of a row is the number in its row id column.
pub proof fn row_id_is_the_number_stored(page: BatchView, row: int, id: u64)
    requires
        page.column_by_name(COMPOUND_IDS_COLUMN@) matches Some(ids) && ids.values[row]
            == crate::scalar::ScalarValue::UInt64(Some(id))@,
    ensures
        row_id(page)(row) == id,
{
}

/// Mapped results are those that the mapping gives: the ids that it has for ids
/// found before, and those found before that it does not mention.
pub proof fn mapped_results_follow_the_mapping(
    before: Result<Set<u64>, ErrorView>,
    after: Result<Set<u64>, ErrorView>,
    mapping: Map<u64, Option<u64>>,
    new_id: u64,
)
    requires
        results_mapped(before, after, mapping),
    ensures
        before is Ok,
        after is Ok,
        after->Ok_0.contains(new_id) <==> (before->Ok_0.contains(new_id)
            && !mapping.dom().contains(new_id)) || exists|id: u64| #[trigger]
            before->Ok_0.contains(id) && mapping.contains_pair(id, Some(new_id)),
{
    if after->Ok_0.contains(new_id) {
        let id = choose|id: u64| #[trigger]
            before->Ok_0.contains(id) && crate::flat::remapped_id(mapping, id) == Some(new_id);
        assert(before->Ok_0.contains(id));
    }
}

/// Searching pages is searching each: what is found in the first ones and in the
/// others, or the error that comes first. Searching one page finds what it
/// holds, and searching none finds nothing.
pub proof fn searches_add_up(
    a: Seq<BatchView>,
    b: Seq<BatchView>,
    page: BatchView,
    names: Seq<Seq<char>>,
    types: Seq<DataTypeView>,
    query: QueryView,
)
    ensures
        pages_result(a + b, names, types, query) == (match (
            pages_result(a, names, types, query),
            pages_result(b, names, types, query),
        ) {
            (Ok(x), Ok(y)) => Ok(x.union(y)),
            (Err(e), _) => Err(e),
            (_, Err(e)) => Err(e),
        }),
        pages_result(seq![page], names, types, query) == page_result(page, names, types, query),
        pages_result(Seq::empty(), names, types, query) == Ok::<Set<u64>, ErrorView>(Set::empty()),
    decreases b.len(),
{
    reveal_with_fuel(pages_result, 2);
    assert(seq![page].drop_last() =~= Seq::<BatchView>::empty());
    assert(seq![page].last() == page);
    if let Ok(t) = page_result(page, names, types, query) {
        assert(Set::<u64>::empty().union(t) =~= t);
    }
    if b.len() == 0 {
        assert(a + b =~= a);
        if let Ok(x) = pages_result(a, names, types, query) {
            assert(x.union(Set::empty()) =~= x);
        }
    } else {
        searches_add_up(a, b.drop_last(), page, names, types, query);
        assert((a + b).drop_last() =~= a + b.drop_last());
        assert((a + b).last() == b.last());
        if let Ok(x) = pages_result(a, names, types, query) {
            if let Ok(y) = pages_result(b.drop_last(), names, types, query) {
                if let Ok(z) = page_result(b.last(), names, types, query) {
                    assert(x.union(y).union(z) =~= x.union(y.union(z)));
                }
            }
        }
    }
}

/// A row with the key is found, whether or not the page is in order, exactly
/// when no row up to it has a greater key.
pub proof fn key_lookup_stops_at_greater_keys(
    batch: BatchView,
    names: Seq<Seq<char>>,
    types: Seq<DataTypeView>,
    key: Seq<u8>,
    id: u64,
)
    requires
        page_rows(batch, names, types) is Ok,
    ensures
        page_result(batch, names, types, QueryView::FullKeyLookup(key)) matches Ok(found) && (
        found.contains(id) <==> exists|row: int| #[trigger] reached_key(batch, names, types, key, row, id)),
{
    let rows = page_rows(batch, names, types)->Ok_0;
    let end = scan_end(rows, key);
    let past = row_exceeds(rows, key);
    crate::first::first_where_spec(rows.len(), past);
    crate::row_set::collected_contains(end, row_is(rows, key), row_id(batch), id);
    let found = full_key_result(batch, names, types, key)->Ok_0;
    if found.contains(id) {
        let row = choose|row: int|
            0 <= row < end && #[trigger] row_is(rows, key)(row) && row_id(batch)(row) == id;
        assert forall|i: int| 0 <= i <= row implies !crate::compound::key_before(
            key,
            #[trigger] rows[i],
        ) by {
            assert(!past(i));
            crate::compound::keys_compare_by_first_difference(rows[i], key);
        }
        assert(reached_key(batch, names, types, key, row, id));
    }
    if exists|row: int| #[trigger] reached_key(batch, names, types, key, row, id) {
        let row = choose|row: int| #[trigger] reached_key(batch, names, types, key, row, id);
        if row >= end {
            assert(past(end as int));
            crate::compound::keys_compare_by_first_difference(rows[end as int], key);
            assert(!crate::compound::key_before(key, rows[end as int]));
        }
        assert(row_is(rows, key)(row));
    }
}

/// A row has the key and the id, and no row up to it has a greater key.
pub open spec fn reached_key(
    batch: BatchView,
    names: Seq<Seq<char>>,
    types: Seq<DataTypeView>,
    key: Seq<u8>,
    row: int,
    id: u64,
) -> bool {
    let rows = page_rows(batch, names, types)->Ok_0;
    &&& 0 <= row < rows.len()
    &&& rows[row] == key
    &&& row_id(batch)(row) == id
    &&& forall|i: int| 0 <= i <= row ==> !crate::compound::key_before(key, #[trigger] rows[i])
}

/// The rows found by a key range are those whose keys lie in it, each end taken
/// by itself.
pub proof fn key_range_finds_rows(
    batch: BatchView,
    names: Seq<Seq<char>>,
    types: Seq<DataTypeView>,
    key: Seq<u8>,
    id: u64,
)
    requires
        page_rows(batch, names, types) is Ok,
    ensures
        key_range_result(
            batch,
            names,
            types,
            Bound::Excluded(key),
            Bound::Unbounded,
        ) matches Ok(found) && (found.contains(id) <==> exists|row: int| #[trigger]
            row_has(batch, names, types, row, id) && crate::compound::key_before(
                key,
                page_rows(batch, names, types)->Ok_0[row],
            )),
        key_range_result(
            batch,
            names,
            types,
            Bound::Unbounded,
            Bound::Included(key),
        ) matches Ok(found) && (found.contains(id) <==> exists|row: int| #[trigger]
            row_has(batch, names, types, row, id) && !crate::compound::key_before(
                key,
                page_rows(batch, names, types)->Ok_0[row],
            )),
        key_range_result(
            batch,
            names,
            types,
            Bound::Unbounded,
            Bound::Excluded(key),
        ) matches Ok(found) && (found.contains(id) <==> exists|row: int| #[trigger]
            row_has(batch, names, types, row, id) && crate::compound::key_before(
                page_rows(batch, names, types)->Ok_0[row],
                key,
            )),
        key_range_result(
            batch,
            names,
            types,
            Bound::Included(key),
            Bound::Unbounded,
        ) matches Ok(found) && (found.contains(id) <==> exists|row: int| #[trigger]
            row_has(batch, names, types, row, id) && !crate::compound::key_before(
                page_rows(batch, names, types)->Ok_0[row],
                key,
            )),
{
    let rows = page_rows(batch, names, types)->Ok_0;
    assert forall|row: int| #[trigger] row_has(batch, names, types, row, id) implies {
        &&& row_between(rows, Bound::Excluded(key), Bound::Unbounded)(row)
            == crate::compound::key_before(key, rows[row])
        &&& row_between(rows, Bound::Unbounded, Bound::Included(key))(row)
            == !crate::compound::key_before(key, rows[row])
        &&& row_between(rows, Bound::Unbounded, Bound::Excluded(key))(row)
            == crate::compound::key_before(rows[row], key)
        &&& row_between(rows, Bound::Included(key), Bound::Unbounded)(row)
            == !crate::compound::key_before(rows[row], key)
    } by {
        crate::compound::keys_compare_by_first_difference(rows[row], key);
    }
    key_range_finds(batch, names, types, Bound::Excluded(key), Bound::Unbounded, id);
    key_range_finds(batch, names, types, Bound::Unbounded, Bound::Included(key), id);
    key_range_finds(batch, names, types, Bound::Unbounded, Bound::Excluded(key), id);
    key_range_finds(batch, names, types, Bound::Included(key), Bound::Unbounded, id);
}

/// A row of a page has the id.
pub open spec fn row_has(
    batch: BatchView,
    names: Seq<Seq<char>>,
    types: Seq<DataTypeView>,
    row: int,
    id: u64,
) -> bool {
    0 <= row < page_rows(batch, names, types)->Ok_0.len() && row_id(batch)(row) == id
}

proof fn key_range_finds(
    batch: BatchView,
    names: Seq<Seq<char>>,
    types: Seq<DataTypeView>,
    lower: Bound<Seq<u8>>,
    upper: Bound<Seq<u8>>,
    id: u64,
)
    requires
        page_rows(batch, names, types) is Ok,
    ensures
        key_range_result(batch, names, types, lower, upper) matches Ok(found) && (found.contains(
            id,
        ) <==> exists|row: int| #[trigger]
            row_has(batch, names, types, row, id) && row_between(
                page_rows(batch, names, types)->Ok_0,
                lower,
                upper,
            )(row)),
{
    let rows = page_rows(batch, names, types)->Ok_0;
    let hit = row_between(rows, lower, upper);
    crate::row_set::collected_contains(rows.len(), hit, row_id(batch), id);
    let found = key_range_result(batch, names, types, lower, upper)->Ok_0;
    if found.contains(id) {
        let row = choose|row: int|
            0 <= row < rows.len() && #[trigger] hit(row) && row_id(batch)(row) == id;
        assert(row_has(batch, names, types, row, id));
    }
    if exists|row: int| #[trigger] row_has(batch, names, types, row, id) && hit(row) {
        let row = choose|row: int| #[trigger]
            row_has(batch, names, types, row, id) && hit(row);
        assert(hit(row));
    }
}

/// When a prefix lookup fails: where the page has no row ids, or where some row
/// agrees with the prefix up to a column that the page does not have. A column
/// that is not looked at may be missing.
pub proof fn prefix_lookup_fails_on_missing_columns(
    batch: BatchView,
    names: Seq<Seq<char>>,
    prefix: Seq<ScalarView>,
    range: Option<(Bound<ScalarView>, Bound<ScalarView>)>,
)
    requires
        prefix.len() <= names.len(),
    ensures
        prefix_result(batch, names, prefix, range) is Err <==> batch.column_by_name(
            COMPOUND_IDS_COLUMN@,
        ) is None || exists|row: int, c: int| #[trigger]
            stuck_at(batch, names, prefix, range, row, c),
        batch.column_by_name(COMPOUND_IDS_COLUMN@) is None ==> prefix_result(
            batch,
            names,
            prefix,
            range,
        ) == Err::<Set<u64>, ErrorView>(
            crate::error::ErrorOf::Index { message: "Missing _rowid column in page"@ },
        ),
{
    let fails = row_fails(batch, names, prefix, range);
    crate::first::first_where_spec(batch.rows, fails);
    assert forall|row: int| 0 <= row < batch.rows implies (#[trigger] fails(row) <==> exists|c: int|
        #[trigger] stuck_at(batch, names, prefix, range, row, c)) by {
        row_fails_where_stuck(batch, names, prefix, range, row);
    }
    if batch.column_by_name(COMPOUND_IDS_COLUMN@) is Some {
        if prefix_result(batch, names, prefix, range) is Err {
            let row = crate::first::first_where(batch.rows, fails)->0;
            assert(fails(row));
            let c = choose|c: int| #[trigger] stuck_at(batch, names, prefix, range, row, c);
            assert(stuck_at(batch, names, prefix, range, row, c));
        }
        if exists|row: int, c: int| #[trigger] stuck_at(batch, names, prefix, range, row, c) {
            let (row, c) = choose|row: int, c: int| #[trigger]
                stuck_at(batch, names, prefix, range, row, c);
            assert(fails(row));
        }
    }
}

/// A row agrees with a prefix on the first `c` columns, and column `c`, which is
/// looked at next, is missing.
pub open spec fn stuck_at(
    batch: BatchView,
    names: Seq<Seq<char>>,
    prefix: Seq<ScalarView>,
    range: Option<(Bound<ScalarView>, Bound<ScalarView>)>,
    row: int,
    c: int,
) -> bool {
    &&& 0 <= row < batch.rows
    &&& 0 <= c < prefix.len() || (c == prefix.len() < names.len() && range is Some)
    &&& batch.column_by_name(names[c]) is None
    &&& forall|b: int|
        0 <= b < c ==> (batch.column_by_name(#[trigger] names[b]) matches Some(col)
            && crate::scalar::is_wanted(col.values[row], prefix[b]))
}

proof fn prefix_outcome(
    batch: BatchView,
    names: Seq<Seq<char>>,
    prefix: Seq<ScalarView>,
    row: int,
    k: nat,
)
    requires
        k <= prefix.len() <= names.len(),
    ensures
        prefix_matches(batch, names, prefix, row, k) == Ok::<bool, ErrorView>(true)
            <==> forall|b: int|
            0 <= b < k ==> (batch.column_by_name(#[trigger] names[b]) matches Some(col)
                && crate::scalar::is_wanted(col.values[row], prefix[b])),
        prefix_matches(batch, names, prefix, row, k) is Err <==> exists|c: int|
            0 <= c < k && batch.column_by_name(#[trigger] names[c]) is None && forall|b: int|
                0 <= b < c ==> (batch.column_by_name(#[trigger] names[b]) matches Some(col)
                    && crate::scalar::is_wanted(col.values[row], prefix[b])),
    decreases k,
{
    if k > 0 {
        let j = (k - 1) as nat;
        prefix_outcome(batch, names, prefix, row, j);
        let before = prefix_matches(batch, names, prefix, row, j);
        let now = prefix_matches(batch, names, prefix, row, k);
        if before == Ok::<bool, ErrorView>(true) {
            if batch.column_by_name(names[j as int]) is None {
                assert(now is Err);
            } else {
                assert(now is Ok);
                if exists|c: int|
                    0 <= c < k && batch.column_by_name(#[trigger] names[c]) is None && forall|b: int|
                        0 <= b < c ==> (batch.column_by_name(#[trigger] names[b]) matches Some(col)
                            && crate::scalar::is_wanted(col.values[row], prefix[b])) {
                    let c = choose|c: int|
                        0 <= c < k && batch.column_by_name(#[trigger] names[c]) is None && forall|
                            b: int,
                        |
                            0 <= b < c ==> (batch.column_by_name(#[trigger] names[b]) matches Some(
                                col,
                            ) && crate::scalar::is_wanted(col.values[row], prefix[b]));
                    assert(c < j);
                    assert(batch.column_by_name(names[c]) is Some);
                }
            }
        } else {
            assert(now == before);
            if exists|c: int|
                0 <= c < k && batch.column_by_name(#[trigger] names[c]) is None && forall|b: int|
                    0 <= b < c ==> (batch.column_by_name(#[trigger] names[b]) matches Some(col)
                        && crate::scalar::is_wanted(col.values[row], prefix[b])) {
                let c = choose|c: int|
                    0 <= c < k && batch.column_by_name(#[trigger] names[c]) is None && forall|
                        b: int,
                    |
                        0 <= b < c ==> (batch.column_by_name(#[trigger] names[b]) matches Some(col)
                            && crate::scalar::is_wanted(col.values[row], prefix[b]));
                assert(c < j);
            }
        }
    }
}

proof fn row_fails_where_stuck(
    batch: BatchView,
    names: Seq<Seq<char>>,
    prefix: Seq<ScalarView>,
    range: Option<(Bound<ScalarView>, Bound<ScalarView>)>,
    row: int,
)
    requires
        prefix.len() <= names.len(),
        0 <= row < batch.rows,
    ensures
        row_matches(batch, names, prefix, range, row) is Err <==> exists|c: int| #[trigger]
            stuck_at(batch, names, prefix, range, row, c),
{
    let n = prefix.len();
    prefix_outcome(batch, names, prefix, row, n);
    let whole = prefix_matches(batch, names, prefix, row, n);
    if whole is Err {
        let c = choose|c: int|
            0 <= c < n && batch.column_by_name(#[trigger] names[c]) is None && forall|b: int|
                0 <= b < c ==> (batch.column_by_name(#[trigger] names[b]) matches Some(col)
                    && crate::scalar::is_wanted(col.values[row], prefix[b]));
        assert(stuck_at(batch, names, prefix, range, row, c));
    } else if row_matches(batch, names, prefix, range, row) is Err {
        assert(stuck_at(batch, names, prefix, range, row, n as int));
    }
    if exists|c: int| #[trigger] stuck_at(batch, names, prefix, range, row, c) {
        let c = choose|c: int| #[trigger] stuck_at(batch, names, prefix, range, row, c);
        if c < n {
            assert(batch.column_by_name(names[c]) is None);
        } else {
            assert(whole == Ok::<bool, ErrorView>(true));
        }
    }
}

/// A page has its keys exactly when it has all value columns, they convert, and
/// it has row ids; the first thing that is missing is the error.
pub proof fn page_keys_need_all_columns(
    batch: BatchView,
    names: Seq<Seq<char>>,
    types: Seq<DataTypeView>,
)
    ensures
        (exists|c: int|
            0 <= c < names.len() && batch.column_by_name(#[trigger] names[c]) is None)
            ==> page_rows(batch, names, types) == Err::<Seq<Seq<u8>>, ErrorView>(
            crate::error::ErrorOf::Index { message: "Missing value columns in page"@ },
        ),
        (forall|c: int|
            0 <= c < names.len() ==> batch.column_by_name(#[trigger] names[c]) is Some) ==> (match (
            page_rows(batch, names, types),
            crate::rows::converted_rows(types, value_columns(batch, names)),
        ) {
            (Ok(rows), Ok(converted)) => rows == converted && batch.column_by_name(
                COMPOUND_IDS_COLUMN@,
            ) is Some,
            (Err(_), Ok(_)) => batch.column_by_name(COMPOUND_IDS_COLUMN@) is None,
            (Err(_), Err(_)) => true,
            (Ok(_), Err(_)) => false,
        }),
        value_columns(batch, names).len() == names.len(),
        forall|c: int|
            0 <= c < names.len() && batch.column_by_name(#[trigger] names[c]) is Some
                ==> value_columns(batch, names)[c] == batch.column_by_name(names[c])->0,
{
    let missing = crate::stats::is_missing(batch, names);
    crate::first::first_where_spec(names.len(), missing);
    if exists|c: int| 0 <= c < names.len() && batch.column_by_name(#[trigger] names[c]) is None {
        let c = choose|c: int|
            0 <= c < names.len() && batch.column_by_name(#[trigger] names[c]) is None;
        assert(missing(c));
    }
}

/// The page size is the number that was recorded for it, whatever it is; the
/// default holds where none was recorded, or no number.
pub proof fn page_size_reads_back(metadata: Map<Seq<char>, Seq<char>>, n: u64)
    ensures
        recorded_batch_size(
            metadata.insert("batch_size"@, crate::text::decimal_text(n as nat)),
        ) == n,
        recorded_batch_size(metadata.remove("batch_size"@)) == 4096,
        crate::text::parsed_u64(metadata["batch_size"@]) is None ==> recorded_batch_size(metadata)
            == 4096,
{
    crate::text::decimal_text_parses(n);
}

/// The fragments of pages are, as the function gives them, those of their rows.
pub proof fn given_fragments_are_those_of_rows(
    pages: &Vec<RecordBatch>,
    r: Result<RoaringBitmap, Error>,
    fragment: u32,
)
    requires
        call_ensures(CompoundBTreeIndex::calculate_included_frags, (pages,), r),
    ensures
        match r {
            Ok(m) => crate::row_set::bits(m).contains(fragment) <==> exists|p: int|
                0 <= p < pages@.len() && #[trigger] page_reaches(pages@[p]@, fragment),
            Err(_) => exists|p: int|
                0 <= p < pages@.len() && (#[trigger] pages@[p])@.column_by_name("_rowid"@) is None,
        },
{
    let views = crate::batch::batches_view(pages@);
    included_fragments_are_those_of_rows(views, fragment);
    assert forall|p: int| 0 <= p < pages@.len() implies #[trigger] views[p] == pages@[p]@ by {}
    match r {
        Ok(m) => {
            if exists|p: int| 0 <= p < views.len() && #[trigger] page_reaches(views[p], fragment) {
                let p = choose|p: int|
                    0 <= p < views.len() && #[trigger] page_reaches(views[p], fragment);
                assert(page_reaches(pages@[p]@, fragment));
            }
            if exists|p: int|
                0 <= p < pages@.len() && #[trigger] page_reaches(pages@[p]@, fragment) {
                let p = choose|p: int|
                    0 <= p < pages@.len() && #[trigger] page_reaches(pages@[p]@, fragment);
                assert(page_reaches(views[p], fragment));
            }
        },
        Err(_) => {
            let p = choose|p: int|
                0 <= p < views.len() && (#[trigger] views[p]).column_by_name("_rowid"@) is None;
            assert(pages@[p]@.column_by_name("_rowid"@) is None);
        },
    }
}

/// Remapping pages keeps, page by page, every row that the mapping does not map
/// to nothing: with its values, and with the new id whatever it is.
pub proof fn remapped_pages_keep_mapped_rows(
    index: &CompoundBTreeIndex,
    pages: &Vec<RecordBatch>,
    mapping: &HashMap<u64, Option<u64>>,
    r: Result<Vec<RecordBatch>, Error>,
    p: int,
    row: int,
    id: u64,
    new_id: u64,
)
    requires
        call_ensures(CompoundBTreeIndex::remap, (index, pages, mapping), r),
        0 <= p < pages@.len(),
        crate::flat::ends_in_row_ids(pages@[p]@),
        pages@[p]@.rows <= usize::MAX,
        0 <= row < pages@[p]@.rows,
        pages@[p]@.columns.last().values[row] == ScalarValue::UInt64(Some(id))@,
        mapping@.contains_pair(id, Some(new_id)) || (!mapping@.dom().contains(id) && new_id == id),
    ensures
        match r {
            Ok(out) => out@.len() == pages@.len() && exists|k: int|
                crate::flat::moved_to(pages@[p]@, row, out@[p]@, k, new_id),
            Err(_) => false,
        },
{
    crate::flat::mapped_rows_are_kept(pages@[p]@, mapping@, row, id, new_id);
    match r {
        Ok(out) => {
            let page = crate::flat::remapped_page(pages@[p]@, mapping@);
            assert(out@[p]@ == page);
            let k = choose|k: int| crate::flat::moved_to(pages@[p]@, row, page, k, new_id);
            assert(crate::flat::moved_to(pages@[p]@, row, out@[p]@, k, new_id));
        },
        Err(_) => {},
    }
}

/// As many pages as are counted hold the rows, and one less does not.
pub proof fn counted_pages_hold_rows(index: &CompoundBTreeIndex, num_rows: usize, r: usize)
    requires
        call_ensures(CompoundBTreeIndex::page_count, (index, num_rows), r),
        0 < index@.batch_size <= usize::MAX,
    ensures
        num_rows <= r * index@.batch_size,
        r > 0 ==> (r - 1) * index@.batch_size < num_rows,
{
    crate::pages::pages_for_bounds(
        num_rows as nat,
        crate::train::page_len(index@.batch_size),
    );
}

/// A lookup by one value in a page without its column is refused by the name of
/// the column.
pub proof fn refused_lookup_names_the_column(
    batch: BatchView,
    names: Seq<Seq<char>>,
    v: ScalarView,
)
    requires
        names.len() > 0,
        batch.rows > 0,
        batch.column_by_name("_rowid"@) is Some,
        batch.column_by_name(names[0]) is None,
    ensures
        prefix_result(batch, names, seq![v], None) == Err::<Set<u64>, ErrorView>(
            crate::error::ErrorOf::Index { message: "Missing column "@ + names[0] + " in page"@ },
        ),
{
    let prefix = seq![v];
    let fails = row_fails(batch, names, prefix, None);
    reveal_with_fuel(prefix_matches, 2);
    assert(fails(0));
    crate::first::first_where_found(batch.rows, fails, 0);
}

/// A row answers a prefix lookup and has the id: its leading columns equal the
/// values looked for, null where null is looked for, and the next column, where
/// there is one, lies in the range.
pub open spec fn row_answers(
    page: BatchView,
    names: Seq<Seq<char>>,
    prefix: Seq<ScalarView>,
    range: Option<(Bound<ScalarView>, Bound<ScalarView>)>,
    row: int,
    id: u64,
) -> bool {
    &&& 0 <= row < page.rows
    &&& row_id(page)(row) == id
    &&& forall|c: int|
        0 <= c < prefix.len() ==> {
            let v = (page.column_by_name(#[trigger] names[c])->0).values[row];
            if prefix[c].key is None {
                v.key is None
            } else {
                crate::scalar::scalar_order(v, prefix[c]) == Some(Order::Equal)
            }
        }
    &&& match range {
        Some((lower, upper)) => prefix.len() < names.len() ==> crate::compound::in_range(
            (page.column_by_name(names[prefix.len() as int])->0).values[row],
            lower,
            upper,
        ),
        None => true,
    }
}

/// A search by prefix in whole pages gives exactly the ids of the rows that
/// answer it.
pub proof fn search_gives_the_rows_that_answer(
    index: &CompoundBTreeIndex,
    query: &CompoundSargableQuery,
    pages: &Vec<RecordBatch>,
    prefix: Seq<ScalarView>,
    range: Option<(Bound<ScalarView>, Bound<ScalarView>)>,
    r: Result<SearchResult, Error>,
    id: u64,
)
    requires
        call_ensures(CompoundBTreeIndex::search, (index, query, pages), r),
        query@ == (QueryView::PrefixLookup { prefix, range }),
        prefix.len() <= index@.columns.len(),
        forall|p: int|
            0 <= p < pages@.len() ==> page_whole((#[trigger] pages@[p])@, index@.columns),
    ensures
        match r {
            Ok(SearchResult::Exact(m)) => crate::row_set::row_addrs(m).contains(id)
                <==> exists|p: int, row: int|
                0 <= p < pages@.len() && #[trigger] row_answers(
                    pages@[p]@,
                    index@.columns,
                    prefix,
                    range,
                    row,
                    id,
                ),
            Err(_) => false,
        },
{
    let views = crate::batch::batches_view(pages@);
    let names = index@.columns;
    assert forall|p: int| 0 <= p < views.len() implies page_whole(#[trigger] views[p], names) by {
        assert(page_whole(pages@[p]@, names));
    }
    prefix_search_finds_matches(views, names, index@.lookup.data_types, prefix, range, id);
    assert forall|p: int, row: int| 0 <= p < views.len() implies (#[trigger] row_found(
        views[p],
        names,
        prefix,
        range,
        row,
        id,
    ) <==> row_answers(pages@[p]@, names, prefix, range, row, id)) by {
        row_found_answers(views[p], names, prefix, range, row, id);
    }
    if let Ok(SearchResult::Exact(m)) = r {
        if exists|p: int, row: int|
            0 <= p < pages@.len() && #[trigger] row_answers(
                pages@[p]@,
                names,
                prefix,
                range,
                row,
                id,
            ) {
            let (p, row) = choose|p: int, row: int|
                0 <= p < pages@.len() && #[trigger] row_answers(
                    pages@[p]@,
                    names,
                    prefix,
                    range,
                    row,
                    id,
                );
            assert(row_found(views[p], names, prefix, range, row, id));
        }
        if exists|p: int, row: int|
            0 <= p < views.len() && #[trigger] row_found(
                views[p],
                names,
                prefix,
                range,
                row,
                id,
            ) {
            let (p, row) = choose|p: int, row: int|
                0 <= p < views.len() && #[trigger] row_found(
                    views[p],
                    names,
                    prefix,
                    range,
                    row,
                    id,
                );
            assert(row_answers(pages@[p]@, names, prefix, range, row, id));
        }
    }
}

/// A row of a whole page is found exactly when it answers.
proof fn row_found_answers(
    page: BatchView,
    names: Seq<Seq<char>>,
    prefix: Seq<ScalarView>,
    range: Option<(Bound<ScalarView>, Bound<ScalarView>)>,
    row: int,
    id: u64,
)
    requires
        page_whole(page, names),
        prefix.len() <= names.len(),
    ensures
        row_found(page, names, prefix, range, row, id) <==> row_answers(
            page,
            names,
            prefix,
            range,
            row,
            id,
        ),
{
    prefix_row_meaning(page, names, prefix, range, row);
    assert forall|c: int| 0 <= c < prefix.len() implies crate::scalar::is_wanted(
        (page.column_by_name(#[trigger] names[c])->0).values[row],
        prefix[c],
    ) == (if prefix[c].key is None {
        (page.column_by_name(names[c])->0).values[row].key is None
    } else {
        crate::scalar::scalar_order((page.column_by_name(names[c])->0).values[row], prefix[c])
            == Some(Order::Equal)
    }) by {
        crate::scalar::wanted_is_equal_or_null(
            (page.column_by_name(names[c])->0).values[row],
            prefix[c],
        );
    }
}

/// The statistics of an index name its type and its columns and count its pages.
pub proof fn statistics_are_those_of_the_index(
    index: &CompoundBTreeIndex,
    statistics: IndexStatistics,
    pages: usize,
)
    requires
        call_ensures(CompoundBTreeIndex::statistics, (index,), statistics),
        call_ensures(CompoundBTreeIndex::num_pages, (index,), pages),
    ensures
        statistics.index_type@ == "CompoundBTree"@,
        statistics.num_pages == pages,
        pages == index@.lookup.page_stats.len(),
        crate::text::texts(statistics.columns@) == index@.columns,
{
}

} // verus!
