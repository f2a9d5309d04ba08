//! Pages stored as flat batches `[col_0, .., col_N-1, _rowid]`.
use std::collections::HashMap;

use vstd::prelude::*;

use crate::batch::{BatchView, Column, ColumnView, RecordBatch};
use crate::datatype::{DataType, DataTypeOf, DataTypeView, Field, FieldView, Schema, SchemaView};
use crate::error::{Error, ErrorOf, ErrorView};
use crate::index::CompoundBTreeIndex;
use crate::scalar::{ScalarValue, ScalarView};
use crate::text::concat3;

verus! {

/// Column name for row IDs in the compound index.
pub const COMPOUND_IDS_COLUMN: &'static str = "_rowid";

/// `r` is a batch, or an error, as `v` says.
pub open spec fn batch_is(
    r: Result<RecordBatch, Error>,
    v: Result<BatchView, ErrorView>,
) -> bool {
    match (r, v) {
        (Ok(b), Ok(x)) => b@ == x,
        (Err(e), Err(y)) => e@ == y,
        _ => false,
    }
}

/// How pages of a compound index are trained, stored and remapped.
pub trait CompoundBTreeSubIndex {
    /// The schema of a stored page.
    spec fn page_schema(&self) -> SchemaView;

    /// The page that a batch is stored as.
    spec fn trained(&self, batch: BatchView) -> Result<BatchView, ErrorView>;

    /// The data that a page was trained on.
    spec fn retrieved(&self, serialized: BatchView) -> Result<BatchView, ErrorView>;

    /// What remapping asks of a page.
    spec fn remappable(&self, serialized: BatchView) -> bool;

    /// The page with its row ids mapped.
    spec fn remapped(
        &self,
        serialized: BatchView,
        mapping: Map<u64, Option<u64>>,
    ) -> Result<BatchView, ErrorView>;

    /// The schema of the subindex when serialized.
    fn schema(&self) -> (r: &Schema)
        ensures
            r@ == self.page_schema(),
    ;

    /// Train the subindex on a single batch of compound data.
    fn train(&self, batch: &RecordBatch) -> (r: Result<RecordBatch, Error>)
        ensures
            batch_is(r, self.trained(batch@)),
    ;

    /// Deserialize a subindex.
    fn load_subindex(&self, serialized: &RecordBatch) -> Result<CompoundBTreeIndex, Error>;

    /// Retrieve the data used to originally train this page.
    fn retrieve_data(&self, serialized: RecordBatch) -> (r: Result<RecordBatch, Error>)
        ensures
            batch_is(r, self.retrieved(serialized@)),
    ;

    /// Remap the row IDs of a serialized page: a mapped id is replaced, an id
    /// mapped to nothing is deleted with its row, any other stays.
    fn remap_subindex(
        &self,
        serialized: &RecordBatch,
        mapping: &HashMap<u64, Option<u64>>,
    ) -> (r: Result<RecordBatch, Error>)
        requires
            self.remappable(serialized@),
        ensures
            batch_is(r, self.remapped(serialized@, mapping@)),
    ;
}

/// The flat compound subindex.
#[derive(Debug)]
pub struct CompoundFlatIndexMetadata {
    schema: Schema,
    num_columns: usize,
    column_names: Vec<String>,
}

/// The schema of flat pages: the value columns, then the row ids.
pub open spec fn flat_schema(names: Seq<Seq<char>>, types: Seq<DataTypeView>) -> SchemaView {
    SchemaView {
        fields: Seq::new(
            names.len(),
            |i: int| FieldView { name: names[i], data_type: types[i], nullable: true },
        ).push(
            FieldView {
                name: COMPOUND_IDS_COLUMN@,
                data_type: DataTypeOf::UInt64,
                nullable: false,
            },
        ),
        metadata: Map::empty(),
    }
}

/// Why a batch cannot be trained on, if a column is missing.
pub open spec fn training_defect(batch: BatchView, names: Seq<Seq<char>>) -> Option<ErrorView> {
    match crate::first::first_where(names.len(), crate::stats::is_missing(batch, names)) {
        Some(c) => Some(
            crate::error::index_error("Missing column '"@ + names[c] + "' in training batch"@),
        ),
        None => if batch.column_by_name(COMPOUND_IDS_COLUMN@) is None {
            Some(
                crate::error::index_error(
                    "Missing '"@ + COMPOUND_IDS_COLUMN@ + "' column in training batch"@,
                ),
            )
        } else {
            None
        },
    }
}

/// The columns of a flat page: the named ones, then the row ids.
pub open spec fn page_columns(batch: BatchView, names: Seq<Seq<char>>) -> Seq<ColumnView> {
    Seq::new(names.len(), |c: int| batch.column_by_name(names[c])->0).push(
        batch.column_by_name(COMPOUND_IDS_COLUMN@)->0,
    )
}

/// The flat page of a batch: its columns in index order, with the page schema.
pub open spec fn flat_page(
    schema: SchemaView,
    names: Seq<Seq<char>>,
    batch: BatchView,
) -> Result<BatchView, ErrorView> {
    match training_defect(batch, names) {
        Some(e) => Err(e),
        None => match crate::batch::batch_defect(schema, page_columns(batch, names)) {
            Some(e) => Err(e),
            None => Ok(
                BatchView {
                    schema,
                    columns: page_columns(batch, names),
                    rows: page_columns(batch, names)[0].values.len(),
                },
            ),
        },
    }
}

/// The new id of a row, or nothing for a deleted row.
pub open spec fn remapped_id(mapping: Map<u64, Option<u64>>, id: u64) -> Option<u64> {
    if mapping.contains_key(id) {
        mapping[id]
    } else {
        Some(id)
    }
}

/// The rows that remapping keeps, in order.
pub open spec fn kept_rows(ids: Seq<ScalarView>, mapping: Map<u64, Option<u64>>) -> Seq<usize>
    decreases ids.len(),
{
    if ids.len() == 0 {
        Seq::empty()
    } else {
        let rest = kept_rows(ids.drop_last(), mapping);
        match remapped_id(mapping, crate::batch::u64_of(ids.last())) {
            Some(_) => rest.push((ids.len() - 1) as usize),
            None => rest,
        }
    }
}

/// The new ids of the kept rows, in order.
pub open spec fn kept_ids(ids: Seq<ScalarView>, mapping: Map<u64, Option<u64>>) -> Seq<ScalarView>
    decreases ids.len(),
{
    if ids.len() == 0 {
        Seq::empty()
    } else {
        let rest = kept_ids(ids.drop_last(), mapping);
        match remapped_id(mapping, crate::batch::u64_of(ids.last())) {
            Some(id) => rest.push(crate::batch::u64_scalar(id)),
            None => rest,
        }
    }
}

/// A page whose last column holds row ids. A null among them reads as zero.
pub open spec fn ends_in_row_ids(batch: BatchView) -> bool {
    &&& batch.wf()
    &&& batch.columns.len() > 0
    &&& batch.columns.last().data_type is UInt64
}

/// A page after remapping.
pub open spec fn remapped_page(batch: BatchView, mapping: Map<u64, Option<u64>>) -> BatchView {
    let ids = batch.columns.last().values;
    BatchView {
        schema: batch.schema,
        columns: Seq::new(
            batch.columns.len(),
            |i: int|
                if i < batch.columns.len() - 1 {
                    crate::batch::gathered(batch.columns[i], kept_rows(ids, mapping))
                } else {
                    ColumnView { data_type: DataTypeOf::UInt64, values: kept_ids(ids, mapping) }
                },
        ),
        rows: kept_rows(ids, mapping).len(),
    }
}

/// Kept rows and kept ids go together: row `kept_rows[k]` has the new id
/// `kept_ids[k]`, the rows are in their old order, and exactly the rows that
/// are not deleted are kept.
pub proof fn remap_keeps_rows(ids: Seq<ScalarView>, mapping: Map<u64, Option<u64>>)
    requires
        ids.len() <= usize::MAX,
    ensures
        kept_rows(ids, mapping).len() == kept_ids(ids, mapping).len(),
        kept_rows(ids, mapping).len() <= ids.len(),
        forall|k: int|
            0 <= k < kept_rows(ids, mapping).len() ==> {
                let row = #[trigger] kept_rows(ids, mapping)[k];
                &&& row < ids.len()
                &&& remapped_id(mapping, crate::batch::u64_of(ids[row as int])) is Some
                &&& kept_ids(ids, mapping)[k] == crate::batch::u64_scalar(
                    remapped_id(mapping, crate::batch::u64_of(ids[row as int]))->0,
                )
            },
        forall|k: int, l: int|
            0 <= k < l < kept_rows(ids, mapping).len() ==> #[trigger] kept_rows(ids, mapping)[k]
                < #[trigger] kept_rows(ids, mapping)[l],
        forall|row: int|
            0 <= row < ids.len() && remapped_id(
                mapping,
                crate::batch::u64_of(#[trigger] ids[row]),
            ) is Some ==> kept_rows(ids, mapping).contains(row as usize),
    decreases ids.len(),
{
    if ids.len() > 0 {
        let last = ids.len() - 1;
        let before = ids.drop_last();
        remap_keeps_rows(before, mapping);
        let rest = kept_rows(before, mapping);
        let all = kept_rows(ids, mapping);
        assert forall|k: int| 0 <= k < rest.len() implies {
            &&& rest[k] < last
            &&& before[rest[k] as int] == ids[rest[k] as int]
        } by {}
        assert forall|row: int|
            0 <= row < ids.len() && remapped_id(
                mapping,
                crate::batch::u64_of(#[trigger] ids[row]),
            ) is Some implies all.contains(row as usize) by {
            if row < last {
                assert(before[row] == ids[row]);
                assert(rest.contains(row as usize));
                let k = choose|k: int| 0 <= k < rest.len() && rest[k] == row as usize;
                assert(all[k] == row as usize);
            } else {
                assert(all.last() == row as usize);
            }
        }
    }
}

/// Remapping with a mapping that mentions none of the page's ids changes
/// nothing.
pub proof fn remap_untouched(batch: BatchView, mapping: Map<u64, Option<u64>>)
    requires
        ends_in_row_ids(batch),
        batch.rows <= usize::MAX,
        forall|i: int|
            0 <= i < batch.rows ==> {
                let v = #[trigger] batch.columns.last().values[i];
                v == crate::batch::u64_scalar(crate::batch::u64_of(v)) && !mapping.contains_key(
                    crate::batch::u64_of(v),
                )
            },
    ensures
        remapped_page(batch, mapping) == batch,
{
    let ids = batch.columns.last().values;
    kept_all(ids, mapping);
    let page = remapped_page(batch, mapping);
    assert forall|i: int| 0 <= i < batch.columns.len() implies page.columns[i]
        == batch.columns[i] by {
        if i < batch.columns.len() - 1 {
            assert(page.columns[i].values =~= batch.columns[i].values);
        } else {
            assert(page.columns[i].values =~= batch.columns[i].values);
        }
    }
    assert(page.columns =~= batch.columns);
}

proof fn kept_all(ids: Seq<ScalarView>, mapping: Map<u64, Option<u64>>)
    requires
        ids.len() <= usize::MAX,
        forall|i: int|
            0 <= i < ids.len() ==> {
                let v = #[trigger] ids[i];
                v == crate::batch::u64_scalar(crate::batch::u64_of(v)) && !mapping.contains_key(
                    crate::batch::u64_of(v),
                )
            },
    ensures
        kept_rows(ids, mapping) == Seq::new(ids.len(), |i: int| i as usize),
        kept_ids(ids, mapping) == ids,
    decreases ids.len(),
{
    if ids.len() > 0 {
        let before = ids.drop_last();
        assert forall|i: int| 0 <= i < before.len() implies before[i] == ids[i] by {}
        kept_all(before, mapping);
        assert(kept_rows(ids, mapping) =~= Seq::new(ids.len(), |i: int| i as usize));
        assert(kept_ids(ids, mapping) =~= ids);
    } else {
        assert(kept_rows(ids, mapping) =~= Seq::new(ids.len(), |i: int| i as usize));
        assert(kept_ids(ids, mapping) =~= ids);
    }
}

/// The columns of a remapped page fit the page's schema.
proof fn remapped_fits(batch: BatchView, mapping: Map<u64, Option<u64>>)
    requires
        ends_in_row_ids(batch),
        batch.rows <= usize::MAX,
    ensures
        crate::batch::batch_defect(batch.schema, remapped_page(batch, mapping).columns) is None,
        remapped_page(batch, mapping).columns[0].values.len() == remapped_page(
            batch,
            mapping,
        ).rows,
{
    let fs = batch.schema.fields;
    let page = remapped_page(batch, mapping);
    let cs = page.columns;
    let ids = batch.columns.last().values;
    let last = batch.columns.len() - 1;
    remap_keeps_rows(ids, mapping);
    assert(batch.columns[last] == batch.columns.last());
    assert forall|i: int| 0 <= i < cs.len() implies !(
    #[trigger] crate::batch::has_forbidden_null(fs, cs)(i)) by {
        if i < last && cs[i].has_null() {
            let k = choose|k: int| 0 <= k < cs[i].values.len() && (#[trigger] cs[i].values[k]).is_null();
            let row = kept_rows(ids, mapping)[k];
            assert(batch.columns[i].values[row as int].is_null());
            assert(batch.columns[i].has_null());
        } else if i == last && cs[i].has_null() {
            let k = choose|k: int| 0 <= k < cs[i].values.len() && (#[trigger] cs[i].values[k]).is_null();
            assert(kept_rows(ids, mapping)[k] < ids.len());
        }
    }
    crate::first::first_where_absent(cs.len(), crate::batch::has_forbidden_null(fs, cs));
    assert forall|i: int| 0 <= i < cs.len() implies !(
    #[trigger] crate::batch::has_other_type(fs, cs)(i)) by {
        assert(batch.columns[i].data_type == fs[i].data_type);
    }
    crate::first::first_where_absent(cs.len(), crate::batch::has_other_type(fs, cs));
}

impl CompoundFlatIndexMetadata {
    pub closed spec fn names(&self) -> Seq<Seq<char>> {
        crate::text::texts(self.column_names@)
    }

    #[verifier::type_invariant]
    spec fn inv(self) -> bool {
        self.num_columns == self.column_names@.len()
    }

    /// A subindex for the given value columns.
    pub fn new(column_names: Vec<String>, data_types: Vec<DataType>) -> (r:
        CompoundFlatIndexMetadata)
        requires
            column_names@.len() == data_types@.len(),
        ensures
            r.names() == crate::text::texts(column_names@),
            r.page_schema() == flat_schema(
                crate::text::texts(column_names@),
                crate::datatype::types(data_types@),
            ),
    {
        let mut fields: Vec<Field> = Vec::new();
        let ghost expected = flat_schema(
            crate::text::texts(column_names@),
            crate::datatype::types(data_types@),
        ).fields;
        for i in 0..column_names.len()
            invariant
                column_names@.len() == data_types@.len(),
                expected == flat_schema(
                    crate::text::texts(column_names@),
                    crate::datatype::types(data_types@),
                ).fields,
                fields@.len() == i,
                forall|j: int| 0 <= j < i ==> (#[trigger] fields@[j])@ == expected[j],
        {
            fields.push(Field::new(column_names[i].as_str(), data_types[i].clone(), true));
        }
        fields.push(Field::new(COMPOUND_IDS_COLUMN, DataType::UInt64, false));
        assert(crate::datatype::fields_view(fields@) =~= expected);
        let num_columns = column_names.len();
        CompoundFlatIndexMetadata { schema: Schema::new(fields), num_columns, column_names }
    }

    /// The number of value columns.
    pub fn num_columns(&self) -> (r: usize)
        ensures
            r == self.names().len(),
    {
        proof {
            use_type_invariant(self);
        }
        self.num_columns
    }

    /// The names of the value columns.
    pub fn column_names(&self) -> (r: &Vec<String>)
        ensures
            crate::text::texts(r@) == self.names(),
    {
        &self.column_names
    }
}

impl CompoundBTreeSubIndex for CompoundFlatIndexMetadata {
    closed spec fn page_schema(&self) -> SchemaView {
        self.schema@
    }

    open spec fn trained(&self, batch: BatchView) -> Result<BatchView, ErrorView> {
        flat_page(self.page_schema(), self.names(), batch)
    }

    open spec fn retrieved(&self, serialized: BatchView) -> Result<BatchView, ErrorView> {
        Ok(serialized)
    }

    open spec fn remappable(&self, serialized: BatchView) -> bool {
        ends_in_row_ids(serialized)
    }

    open spec fn remapped(
        &self,
        serialized: BatchView,
        mapping: Map<u64, Option<u64>>,
    ) -> Result<BatchView, ErrorView> {
        Ok(remapped_page(serialized, mapping))
    }

    fn schema(&self) -> (r: &Schema) {
        &self.schema
    }

    fn train(&self, batch: &RecordBatch) -> (r: Result<RecordBatch, Error>) {
        let mut columns: Vec<Column> = Vec::new();
        let ghost names = self.names();
        let ghost p = crate::stats::is_missing(batch@, names);
        for c in 0..self.column_names.len()
            invariant
                names == self.names(),
                names == crate::text::texts(self.column_names@),
                p == crate::stats::is_missing(batch@, names),
                forall|j: int| 0 <= j < c ==> !(#[trigger] p(j)),
                columns@.len() == c,
                forall|j: int|
                    0 <= j < c ==> (#[trigger] columns@[j])@ == batch@.column_by_name(names[j])->0,
        {
            match batch.column_by_name(self.column_names[c].as_str()) {
                Some(col) => {
                    assert(!p(c as int));
                    columns.push(col.clone());
                },
                None => {
                    proof {
                        assert(p(c as int));
                        crate::first::first_where_found(names.len(), p, c as int);
                    }
                    return Err(
                        ErrorOf::Index {
                            message: concat3(
                                "Missing column '",
                                self.column_names[c].as_str(),
                                "' in training batch",
                            ),
                        },
                    );
                },
            }
        }
        proof {
            crate::first::first_where_absent(names.len(), p);
        }
        match batch.column_by_name(COMPOUND_IDS_COLUMN) {
            Some(col) => columns.push(col.clone()),
            None => {
                return Err(
                    ErrorOf::Index {
                        message: concat3(
                            "Missing '",
                            COMPOUND_IDS_COLUMN,
                            "' column in training batch",
                        ),
                    },
                );
            },
        }
        assert(crate::batch::columns_view(columns@) =~= page_columns(batch@, names));
        RecordBatch::try_new(self.schema.clone(), columns)
    }

    fn load_subindex(&self, serialized: &RecordBatch) -> (r: Result<CompoundBTreeIndex, Error>)
        ensures
            crate::error::fails_with(
                r,
                crate::error::not_supported(
                    "Compound index loading not yet implemented (planned for M3)"@,
                ),
            ),
    {
        Err(
            ErrorOf::NotSupported {
                message: "Compound index loading not yet implemented (planned for M3)".to_owned(),
            },
        )
    }

    fn retrieve_data(&self, serialized: RecordBatch) -> (r: Result<RecordBatch, Error>) {
        Ok(serialized)
    }

    fn remap_subindex(
        &self,
        serialized: &RecordBatch,
        mapping: &HashMap<u64, Option<u64>>,
    ) -> (r: Result<RecordBatch, Error>) {
        broadcast use vstd::std_specs::hash::group_hash_axioms;

        let last = serialized.num_columns() - 1;
        let row_ids = serialized.column(last);
        let rows = row_ids.len();
        let ghost b = serialized@;
        let ghost ids = b.columns.last().values;
        let mut positions: Vec<usize> = Vec::new();
        let mut new_ids: Vec<ScalarValue> = Vec::new();
        for i in 0..rows
            invariant
                ids == row_ids@.values,
                rows == ids.len(),
                row_ids@.data_type is UInt64,
                positions@ == kept_rows(ids.take(i as int), mapping@),
                crate::scalar::scalars(new_ids@) == kept_ids(ids.take(i as int), mapping@),
                forall|k: int| 0 <= k < positions@.len() ==> positions@[k] < i,
                forall|k: int|
                    0 <= k < new_ids@.len() ==> (#[trigger] new_ids@[k])@.data_type is UInt64,
        {
            broadcast use vstd::std_specs::hash::group_hash_axioms;

            assert(ids.take(i + 1).drop_last() =~= ids.take(i as int));
            assert(ids.take(i + 1).last() == ids[i as int]);
            let old_id = row_ids.u64_value(i);
            let new_id = match mapping.get(&old_id) {
                Some(mapped) => *mapped,
                None => Some(old_id),
            };
            match new_id {
                Some(id) => {
                    let ghost before = new_ids@;
                    positions.push(i);
                    new_ids.push(ScalarValue::UInt64(Some(id)));
                    assert(crate::scalar::scalars(new_ids@) =~= crate::scalar::scalars(before).push(
                        crate::batch::u64_scalar(id),
                    ));
                },
                None => {},
            }
        }
        assert(ids.take(rows as int) =~= ids);
        let id_column = match Column::try_new(DataType::UInt64, new_ids) {
            Ok(c) => c,
            Err(e) => {
                return Err(e);
            },
        };
        let mut columns: Vec<Column> = Vec::new();
        for i in 0..last
            invariant
                b == serialized@,
                last == b.columns.len() - 1,
                b.wf(),
                forall|k: int| 0 <= k < positions@.len() ==> positions@[k] < b.rows,
                columns@.len() == i,
                forall|j: int|
                    0 <= j < i ==> (#[trigger] columns@[j])@ == crate::batch::gathered(
                        b.columns[j],
                        positions@,
                    ),
        {
            columns.push(serialized.column(i).gather(&positions));
        }
        columns.push(id_column);
        proof {
            remapped_fits(b, mapping@);
            assert(crate::batch::columns_view(columns@) =~= remapped_page(b, mapping@).columns);
        }
        RecordBatch::try_new(serialized.schema().clone(), columns)
    }
}

/// The new id of a row is the one that the mapping has for it, whatever it is; a
/// row mapped to nothing has none, and a row that is not mentioned keeps its id.
pub proof fn mapping_decides_ids(mapping: Map<u64, Option<u64>>, id: u64, new_id: u64)
    ensures
        remapped_id(mapping.insert(id, Some(new_id)), id) == Some(new_id),
        remapped_id(mapping.insert(id, None), id) is None,
        remapped_id(mapping.remove(id), id) == Some(id),
        mapping.contains_pair(id, Some(new_id)) ==> remapped_id(mapping, id) == Some(new_id),
        mapping.contains_pair(id, None) ==> remapped_id(mapping, id) is None,
        !mapping.dom().contains(id) ==> remapped_id(mapping, id) == Some(id),
{
}

/// A row of a page, after remapping, is a row of another: it has the new id and
/// the old values.
pub open spec fn moved_to(
    batch: BatchView,
    row: int,
    page: BatchView,
    k: int,
    new_id: u64,
) -> bool {
    let last = batch.columns.len() - 1;
    &&& 0 <= k < page.rows
    &&& page.columns.len() == batch.columns.len()
    &&& page.columns[last].values[k] == ScalarValue::UInt64(Some(new_id))@
    &&& forall|i: int|
        0 <= i < last ==> (#[trigger] page.columns[i]).values[k] == batch.columns[i].values[row]
}

/// Remapping a page, row by row: a row whose id the mapping has a new one for is
/// kept with the new id, a row whose id it does not mention is kept with its
/// own, and both keep their values.
pub proof fn mapped_rows_are_kept(
    batch: BatchView,
    mapping: Map<u64, Option<u64>>,
    row: int,
    id: u64,
    new_id: u64,
)
    requires
        ends_in_row_ids(batch),
        batch.rows <= usize::MAX,
        0 <= row < batch.rows,
        batch.columns.last().values[row] == ScalarValue::UInt64(Some(id))@,
        mapping.contains_pair(id, Some(new_id)) || (!mapping.dom().contains(id) && new_id == id),
    ensures
        exists|k: int| moved_to(batch, row, remapped_page(batch, mapping), k, new_id),
{
    let page = remapped_page(batch, mapping);
    let ids = batch.columns.last().values;
    let kept = kept_rows(ids, mapping);
    assert(batch.columns[batch.columns.len() - 1] == batch.columns.last());
    remap_keeps_rows(ids, mapping);
    assert(crate::batch::u64_of(ids[row]) == id);
    assert(kept.contains(row as usize));
    let k = choose|k: int| 0 <= k < kept.len() && kept[k] == row as usize;
    assert(kept_ids(ids, mapping)[k] == crate::batch::u64_scalar(new_id));
    assert(moved_to(batch, row, page, k, new_id));
}

/// Remapping a page invents nothing and deletes what it should: every row of the
/// new page is an old one that the mapping does not map to nothing, with the id
/// that the mapping has for it or, where it is not mentioned, its own.
pub proof fn remapped_rows_come_from_kept_ones(
    batch: BatchView,
    mapping: Map<u64, Option<u64>>,
    k: int,
)
    requires
        ends_in_row_ids(batch),
        batch.rows <= usize::MAX,
        0 <= k < remapped_page(batch, mapping).rows,
    ensures
        remapped_page(batch, mapping).schema == batch.schema,
        exists|row: int, new_id: u64|
            0 <= row < batch.rows && #[trigger] moved_to(
                batch,
                row,
                remapped_page(batch, mapping),
                k,
                new_id,
            ) && {
                let id = crate::batch::u64_of(batch.columns.last().values[row]);
                mapping.contains_pair(id, Some(new_id)) || (!mapping.dom().contains(id) && new_id
                    == id)
            },
{
    let page = remapped_page(batch, mapping);
    let ids = batch.columns.last().values;
    let kept = kept_rows(ids, mapping);
    assert(batch.columns[batch.columns.len() - 1] == batch.columns.last());
    remap_keeps_rows(ids, mapping);
    let row = kept[k] as int;
    let id = crate::batch::u64_of(ids[row]);
    let new_id = remapped_id(mapping, id)->0;
    assert(moved_to(batch, row, page, k, new_id));
}

/// A page keeps exactly as many rows as have an id that is not mapped to
/// nothing.
pub proof fn remapping_counts_kept_rows(ids: Seq<ScalarView>, mapping: Map<u64, Option<u64>>)
    ensures
        kept_rows(ids, mapping).len() == ids.filter(
            |v: ScalarView| !mapping.contains_pair(crate::batch::u64_of(v), None),
        ).len(),
        kept_ids(ids, mapping).len() == kept_rows(ids, mapping).len(),
    decreases ids.len(),
{
    let f = |v: ScalarView| !mapping.contains_pair(crate::batch::u64_of(v), None);
    reveal(Seq::filter);
    if ids.len() > 0 {
        remapping_counts_kept_rows(ids.drop_last(), mapping);
        assert(ids.filter(f).len() == ids.drop_last().filter(f).len() + if f(ids.last()) {
            1nat
        } else {
            0nat
        });
    }
}

/// The schema of flat pages has the value columns in order, with their types and
/// nulls allowed, and then the row ids, without nulls.
pub proof fn flat_schema_lists_columns(names: Seq<Seq<char>>, types: Seq<DataTypeView>, i: int)
    requires
        names.len() == types.len(),
    ensures
        flat_schema(names, types).fields.len() == names.len() + 1,
        0 <= i < names.len() ==> {
            let f = flat_schema(names, types).fields[i];
            f.name == names[i] && f.data_type == types[i] && f.nullable
        },
        ({
            let f = flat_schema(names, types).fields.last();
            f.name == COMPOUND_IDS_COLUMN@ && f.data_type is UInt64 && !f.nullable
        }),
{
}

/// A flat page holds its batch row for row: column `c` of the page is the column
/// with the index's `c`th name, and the last one the row ids. A batch has a flat
/// page exactly when it has those columns, each of the type that the index has
/// for it, and no row without an id.
pub proof fn flat_page_holds_its_batch(
    names: Seq<Seq<char>>,
    types: Seq<DataTypeView>,
    batch: BatchView,
)
    requires
        batch.wf(),
        names.len() == types.len(),
    ensures
        flat_page(flat_schema(names, types), names, batch) is Ok <==> {
            &&& forall|c: int|
                0 <= c < names.len() ==> (batch.column_by_name(#[trigger] names[c]) matches Some(
                    col,
                ) && col.data_type == types[c])
            &&& batch.column_by_name(COMPOUND_IDS_COLUMN@) matches Some(ids)
                && ids.data_type is UInt64 && forall|k: int|
                0 <= k < ids.values.len() ==> (#[trigger] ids.values[k]).key is Some
        },
        flat_page(flat_schema(names, types), names, batch) matches Ok(page) ==> {
            &&& page.schema == flat_schema(names, types)
            &&& page.rows == batch.rows
            &&& page.columns.len() == names.len() + 1
            &&& forall|c: int|
                0 <= c < names.len() ==> #[trigger] page.columns[c] == batch.column_by_name(
                    names[c],
                )->0
            &&& page.columns.last() == batch.column_by_name(COMPOUND_IDS_COLUMN@)->0
        },
{
    let schema = flat_schema(names, types);
    let missing = crate::stats::is_missing(batch, names);
    let columns = page_columns(batch, names);
    crate::first::first_where_spec(names.len(), missing);
    crate::batch::columns_make_a_batch(schema, columns);
    let n = batch.schema.fields.len();
    assert forall|x: Seq<char>| #[trigger] batch.column_by_name(x) is Some implies (
    batch.column_by_name(x)->0).values.len() == batch.rows by {
        crate::first::first_where_spec(n, crate::batch::is_named(batch.schema.fields, x));
        assert(batch.columns[batch.index_of(x)->0].values.len() == batch.rows);
    }
    let good = {
        &&& forall|c: int|
            0 <= c < names.len() ==> (batch.column_by_name(#[trigger] names[c]) matches Some(col)
                && col.data_type == types[c])
        &&& batch.column_by_name(COMPOUND_IDS_COLUMN@) matches Some(ids)
            && ids.data_type is UInt64 && forall|k: int|
            0 <= k < ids.values.len() ==> (#[trigger] ids.values[k]).key is Some
    };
    if good {
        assert forall|c: int| 0 <= c < names.len() implies !(#[trigger] missing(c)) by {
            assert(batch.column_by_name(names[c]) is Some);
        }
        assert forall|i: int| 0 <= i < columns.len() implies {
            &&& (#[trigger] columns[i]).values.len() == columns[0].values.len()
            &&& columns[i].data_type == schema.fields[i].data_type
            &&& !schema.fields[i].nullable ==> !columns[i].has_null()
        } by {
            if i < names.len() {
                assert(batch.column_by_name(names[i]) is Some);
            }
            if names.len() > 0 {
                assert(batch.column_by_name(names[0]) is Some);
            }
        }
    }
    if flat_page(schema, names, batch) is Ok {
        assert forall|c: int| 0 <= c < names.len() implies (batch.column_by_name(
            #[trigger] names[c],
        ) matches Some(col) && col.data_type == types[c]) by {
            assert(!missing(c));
            assert(columns[c].data_type == schema.fields[c].data_type);
        }
        assert(columns[names.len() as int].data_type == schema.fields[names.len() as int].data_type);
        if names.len() > 0 {
            assert(batch.column_by_name(names[0]) is Some);
        }
    }
}

/// Remapping keeps the order of rows: of two rows that stay, the one that came
/// first comes first.
pub proof fn remapping_keeps_order(
    batch: BatchView,
    mapping: Map<u64, Option<u64>>,
    row: int,
    later: int,
    a: u64,
    b: u64,
)
    requires
        ends_in_row_ids(batch),
        batch.rows <= usize::MAX,
        0 <= row < later < batch.rows,
        remapped_id(mapping, crate::batch::u64_of(batch.columns.last().values[row])) == Some(a),
        remapped_id(mapping, crate::batch::u64_of(batch.columns.last().values[later])) == Some(b),
    ensures
        exists|k: int, l: int|
            k < l && #[trigger] moved_to(batch, row, remapped_page(batch, mapping), k, a)
                && #[trigger] moved_to(batch, later, remapped_page(batch, mapping), l, b),
{
    let page = remapped_page(batch, mapping);
    let ids = batch.columns.last().values;
    let kept = kept_rows(ids, mapping);
    assert(batch.columns[batch.columns.len() - 1] == batch.columns.last());
    remap_keeps_rows(ids, mapping);
    kept_rows_ascend(ids, mapping);
    assert(kept.contains(row as usize));
    assert(kept.contains(later as usize));
    let k = choose|k: int| 0 <= k < kept.len() && kept[k] == row as usize;
    let l = choose|l: int| 0 <= l < kept.len() && kept[l] == later as usize;
    assert(kept_ids(ids, mapping)[k] == crate::batch::u64_scalar(a));
    assert(kept_ids(ids, mapping)[l] == crate::batch::u64_scalar(b));
    assert(moved_to(batch, row, page, k, a));
    assert(moved_to(batch, later, page, l, b));
    if l <= k {
        assert(l < k ==> kept[l] < kept[k]);
    }
}

/// The kept rows are in ascending order.
proof fn kept_rows_ascend(ids: Seq<ScalarView>, mapping: Map<u64, Option<u64>>)
    requires
        ids.len() <= usize::MAX,
    ensures
        forall|k: int, l: int|
            0 <= k < l < kept_rows(ids, mapping).len() ==> (#[trigger] kept_rows(ids, mapping)[k])
                < (#[trigger] kept_rows(ids, mapping)[l]),
        forall|k: int|
            0 <= k < kept_rows(ids, mapping).len() ==> (#[trigger] kept_rows(ids, mapping)[k])
                < ids.len(),
    decreases ids.len(),
{
    if ids.len() > 0 {
        let before = ids.drop_last();
        kept_rows_ascend(before, mapping);
        let rest = kept_rows(before, mapping);
        let all = kept_rows(ids, mapping);
        assert forall|k: int, l: int| 0 <= k < l < all.len() implies (#[trigger] all[k]) < (
        #[trigger] all[l]) by {
            assert(all[k] == rest[k]);
            if l < rest.len() {
                assert(all[l] == rest[l]);
            }
        }
        assert forall|k: int| 0 <= k < all.len() implies (#[trigger] all[k]) < ids.len() by {
            if k < rest.len() {
                assert(all[k] == rest[k]);
            }
        }
    }
}

/// A batch that lacks a column cannot be trained on, and the error names the
/// first that it lacks: a value column, or else the row ids.
pub proof fn lacking_column_is_named(batch: BatchView, names: Seq<Seq<char>>, c: int)
    requires
        0 <= c <= names.len(),
        forall|d: int| 0 <= d < c ==> batch.column_by_name(#[trigger] names[d]) is Some,
    ensures
        c < names.len() && batch.column_by_name(names[c]) is None ==> training_defect(batch, names)
            == Some(
            ErrorView::Index {
                message: "Missing column '"@ + names[c] + "' in training batch"@,
            },
        ),
        c == names.len() && batch.column_by_name("_rowid"@) is None ==> training_defect(
            batch,
            names,
        ) == Some(
            ErrorView::Index { message: "Missing '"@ + "_rowid"@ + "' column in training batch"@ },
        ),
        c == names.len() && batch.column_by_name("_rowid"@) is Some ==> training_defect(
            batch,
            names,
        ) is None,
{
    let missing = crate::stats::is_missing(batch, names);
    assert forall|d: int| 0 <= d < c implies !(#[trigger] missing(d)) by {
        assert(batch.column_by_name(names[d]) is Some);
    }
    if c < names.len() {
        if batch.column_by_name(names[c]) is None {
            assert(missing(c));
            crate::first::first_where_found(names.len(), missing, c);
        }
    } else {
        crate::first::first_where_absent(names.len(), missing);
    }
}

} // verus!
