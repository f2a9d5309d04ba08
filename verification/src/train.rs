//! Training: turning sorted batches into the pages and the lookup batch of an
//! index.
use vstd::prelude::*;

use crate::batch::{total_rows, BatchView, RecordBatch};
use crate::compound::{Bound, CompoundIndexSchema, QueryView};
use crate::datatype::{clone_types, DataType, DataTypeView, Schema, SchemaView};
use crate::error::{Error, ErrorView};
use crate::flat::{CompoundBTreeSubIndex, CompoundFlatIndexMetadata, COMPOUND_IDS_COLUMN};
use crate::index::COMPOUND_BATCH_SIZE_META_KEY;
use crate::pages::{cut, cut_pages, input_pages, pages_for, same_fields};
use crate::scalar::ScalarView;
use crate::stats::{
    analyze_compound_batch, compound_stats_as_batch, BatchStatsView, ColumnStatsView,
    CompoundBatchStats,
};
use crate::text::{clone_texts, concat3, decimal};

verus! {

/// File name for compound page data (the actual indexed rows).
pub const COMPOUND_PAGES_NAME: &'static str = "compound_page_data.lance";

/// File name for compound page lookup (per-page statistics).
pub const COMPOUND_LOOKUP_NAME: &'static str = "compound_page_lookup.lance";

/// The number that tells the files of a part of an index apart: the first
/// fragment id, as the upper half of a row address. A full index has none.
pub open spec fn fragment_mask(fragment_ids: Option<Seq<u32>>) -> Option<nat> {
    match fragment_ids {
        Some(ids) => if ids.len() > 0 {
            Some((ids[0] * 0x1_0000_0000) as nat)
        } else {
            None
        },
        None => None,
    }
}

/// The names of the page file and of the lookup file.
pub open spec fn file_names(mask: Option<nat>) -> (Seq<char>, Seq<char>) {
    match mask {
        None => (COMPOUND_PAGES_NAME@, COMPOUND_LOOKUP_NAME@),
        Some(m) => (
            "part_"@ + crate::text::decimal_text(m) + "_compound_page_data.lance"@,
            "part_"@ + crate::text::decimal_text(m) + "_compound_page_lookup.lance"@,
        ),
    }
}

pub open spec fn opt_ids(ids: Option<Vec<u32>>) -> Option<Seq<u32>> {
    match ids {
        Some(v) => Some(v@),
        None => None,
    }
}

/// The names of the page file and of the lookup file of a full index, or of the
/// part that holds the given fragments.
pub fn index_file_names(fragment_ids: &Option<Vec<u32>>) -> (r: (String, String))
    ensures
        (r.0@, r.1@) == file_names(fragment_mask(opt_ids(*fragment_ids))),
{
    match fragment_ids {
        Some(ids) if ids.len() > 0 => {
            let mask = decimal(ids[0] as u64 * 0x1_0000_0000);
            (
                concat3("part_", mask.as_str(), "_compound_page_data.lance"),
                concat3("part_", mask.as_str(), "_compound_page_lookup.lance"),
            )
        },
        _ => (COMPOUND_PAGES_NAME.to_owned(), COMPOUND_LOOKUP_NAME.to_owned()),
    }
}

/// What training a page comes to: its statistics and the stored page, or an
/// error.
pub open spec fn page_training<T: CompoundBTreeSubIndex>(
    trainer: &T,
    names: Seq<Seq<char>>,
    batch: BatchView,
) -> Result<(Seq<ColumnStatsView>, BatchView), ErrorView> {
    match crate::stats::analysis_defect(batch, names) {
        Some(e) => Err(e),
        None => match trainer.trained(batch) {
            Err(e) => Err(e),
            Ok(page) => Ok((crate::stats::analysis(batch, names), page)),
        },
    }
}

/// Train a single compound page: its statistics and the page to store.
pub fn train_compound_page<T: CompoundBTreeSubIndex>(
    batch: &RecordBatch,
    batch_idx: u32,
    column_names: &Vec<String>,
    sub_index_trainer: &T,
) -> (r: Result<(CompoundBatchStats, RecordBatch), Error>)
    ensures
        match (r, page_training(sub_index_trainer, crate::text::texts(column_names@), batch@)) {
            (Ok((stats, page)), Ok((s, p))) => {
                &&& stats@ == (BatchStatsView { column_stats: s, page_number: batch_idx })
                &&& page@ == p
            },
            (Err(e), Err(v)) => e@ == v,
            _ => false,
        },
{
    let column_stats = match analyze_compound_batch(batch, column_names) {
        Ok(s) => s,
        Err(e) => {
            return Err(e);
        },
    };
    let trained = match sub_index_trainer.train(batch) {
        Ok(t) => t,
        Err(e) => {
            return Err(e);
        },
    };
    Ok((CompoundBatchStats { column_stats, page_number: batch_idx }, trained))
}

/// What training a sequence of pages comes to: their statistics, numbered in
/// order, and the stored pages, or the first error.
pub open spec fn training_run<T: CompoundBTreeSubIndex>(
    trainer: &T,
    names: Seq<Seq<char>>,
    batches: Seq<BatchView>,
) -> Result<(Seq<BatchStatsView>, Seq<BatchView>), ErrorView>
    decreases batches.len(),
{
    if batches.len() == 0 {
        Ok((Seq::empty(), Seq::empty()))
    } else {
        match training_run(trainer, names, batches.drop_last()) {
            Err(e) => Err(e),
            Ok((stats, pages)) => match page_training(trainer, names, batches.last()) {
                Err(e) => Err(e),
                Ok((s, page)) => Ok(
                    (
                        stats.push(
                            BatchStatsView {
                                column_stats: s,
                                page_number: (batches.len() - 1) as u32,
                            },
                        ),
                        pages.push(page),
                    ),
                ),
            },
        }
    }
}

/// An error in the first pages is the result for all of them.
proof fn training_error_stays<T: CompoundBTreeSubIndex>(
    trainer: &T,
    names: Seq<Seq<char>>,
    batches: Seq<BatchView>,
    k: int,
)
    requires
        0 <= k <= batches.len(),
        training_run(trainer, names, batches.take(k)) is Err,
    ensures
        training_run(trainer, names, batches) == training_run(trainer, names, batches.take(k)),
    decreases batches.len(),
{
    if k < batches.len() {
        assert(batches.drop_last().take(k) =~= batches.take(k));
        training_error_stays(trainer, names, batches.drop_last(), k);
    } else {
        assert(batches.take(k) =~= batches);
    }
}

/// The files of a trained index.
#[derive(Debug)]
pub struct TrainedIndex {
    pub page_data_name: String,
    pub pages: Vec<RecordBatch>,
    pub page_lookup_name: String,
    pub lookup_schema: Schema,
    pub lookup_batch: RecordBatch,
}

/// The rows of a page.
pub open spec fn page_len(batch_size: u64) -> nat {
    (batch_size as usize) as nat
}

/// Train a compound index from batches of one schema, together sorted by
/// compound key. Their rows are cut into pages of `batch_size` rows, however
/// many each batch has.
pub fn train_compound_btree_index<T: CompoundBTreeSubIndex>(
    batches: &Vec<RecordBatch>,
    sub_index_trainer: &T,
    compound_schema: &CompoundIndexSchema,
    batch_size: u64,
    fragment_ids: &Option<Vec<u32>>,
) -> (r: Result<TrainedIndex, Error>)
    requires
        compound_schema.column_texts().len() == compound_schema.type_views().len(),
        page_len(batch_size) > 0,
        same_fields(crate::batch::batches_view(batches@)),
        total_rows(crate::batch::batches_view(batches@)) <= usize::MAX,
        pages_for(
            total_rows(crate::batch::batches_view(batches@)),
            page_len(batch_size),
        ) <= u32::MAX,
    ensures
        match training_run(
            sub_index_trainer,
            compound_schema.column_texts(),
            input_pages(crate::batch::batches_view(batches@), page_len(batch_size)),
        ) {
            Err(e) => crate::error::fails_with(r, e),
            Ok((stats, pages)) => match crate::stats::stats_defect(
                stats,
                compound_schema.type_views().len(),
            ) {
                Some(e) => crate::error::fails_with(r, e),
                None => r matches Ok(t) && {
                    &&& (t.page_data_name@, t.page_lookup_name@) == file_names(
                        fragment_mask(opt_ids(*fragment_ids)),
                    )
                    &&& crate::batch::batches_view(t.pages@) == pages
                    &&& t.lookup_batch@ == crate::stats::lookup_batch(
                        stats,
                        compound_schema.column_texts(),
                        compound_schema.type_views(),
                    )
                    &&& t.lookup_schema@ == lookup_file_schema(t.lookup_batch@.schema, batch_size)
                },
            },
        },
{
    let (page_data_name, page_lookup_name) = index_file_names(fragment_ids);
    let mut training = CompoundTraining::new(compound_schema, batch_size);
    let mut pages: Vec<RecordBatch> = Vec::new();
    let size: usize = #[verifier::truncate] (batch_size as usize);
    let input = cut_pages(batches, size);
    let ghost views = crate::batch::batches_view(input@);
    assert(input@.len() <= u32::MAX) by {
        assert(input@.len() == views.len());
    }
    let ghost names = compound_schema.column_texts();
    let ghost tys = compound_schema.type_views();
    assert(crate::batch::batches_view(pages@) =~= Seq::empty());
    for p in 0..input.len()
        invariant
            input@.len() <= u32::MAX,
            views == crate::batch::batches_view(input@),
            views == input_pages(
                crate::batch::batches_view(batches@),
                page_len(batch_size),
            ),
            names == compound_schema.column_texts(),
            tys == compound_schema.type_views(),
            training@.names == names,
            training@.types == tys,
            training@.batch_size == batch_size,
            training@.pages.len() == p,
            training_run(sub_index_trainer, names, views.take(p as int)) == Ok::<
                (Seq<BatchStatsView>, Seq<BatchView>),
                ErrorView,
            >((training@.pages, crate::batch::batches_view(pages@))),
    {
        assert(views.take(p + 1).drop_last() =~= views.take(p as int));
        assert(views.take(p + 1).last() == input@[p as int]@);
        match training.add_page(&input[p], sub_index_trainer) {
            Ok(page) => {
                let ghost before = pages@;
                pages.push(page);
                assert(crate::batch::batches_view(pages@) =~= crate::batch::batches_view(
                    before,
                ).push(page@));
            },
            Err(e) => {
                proof {
                    training_error_stays(sub_index_trainer, names, views, p + 1);
                }
                return Err(e);
            },
        }
    }
    assert(views.take(views.len() as int) =~= views);
    match training.finish() {
        Ok((lookup_schema, lookup_batch)) => Ok(
            TrainedIndex { page_data_name, pages, page_lookup_name, lookup_schema, lookup_batch },
        ),
        Err(e) => Err(e),
    }
}

/// An index in training: the statistics of the pages so far.
struct CompoundTraining {
    column_names: Vec<String>,
    data_types: Vec<DataType>,
    batch_size: u64,
    pages: Vec<CompoundBatchStats>,
}

#[verifier::ext_equal]
struct TrainingView {
    names: Seq<Seq<char>>,
    types: Seq<DataTypeView>,
    batch_size: u64,
    pages: Seq<BatchStatsView>,
}

impl TrainingView {
    /// The pages are numbered in order and have statistics for every column.
    spec fn wf(self) -> bool {
        &&& self.names.len() == self.types.len()
        &&& forall|p: int|
            0 <= p < self.pages.len() ==> {
                &&& (#[trigger] self.pages[p]).page_number == p
                &&& self.pages[p].column_stats.len() == self.names.len()
            }
    }
}

impl CompoundTraining {
    spec fn view(&self) -> TrainingView {
        TrainingView {
            names: crate::text::texts(self.column_names@),
            types: crate::datatype::types(self.data_types@),
            batch_size: self.batch_size,
            pages: crate::stats::batch_stats_views(self.pages@),
        }
    }
}

impl CompoundTraining {
    #[verifier::type_invariant]
    spec fn inv(self) -> bool {
        self.view().wf()
    }

    /// Start training an index without pages.
    fn new(compound_schema: &CompoundIndexSchema, batch_size: u64) -> (r: CompoundTraining)
        requires
            compound_schema.column_texts().len() == compound_schema.type_views().len(),
        ensures
            r@ == (TrainingView {
                names: compound_schema.column_texts(),
                types: compound_schema.type_views(),
                batch_size,
                pages: Seq::empty(),
            }),
            r@.wf(),
    {
        let column_names = clone_texts(compound_schema.columns());
        let data_types = clone_types(compound_schema.data_types());
        let pages: Vec<CompoundBatchStats> = Vec::new();
        assert(crate::stats::batch_stats_views(pages@) =~= Seq::empty());
        assert(crate::text::texts(column_names@) == compound_schema.column_texts());
        CompoundTraining { column_names, data_types, batch_size, pages }
    }

    /// Train the next page; gives the page to store.
    fn add_page<T: CompoundBTreeSubIndex>(
        &mut self,
        batch: &RecordBatch,
        sub_index_trainer: &T,
    ) -> (r: Result<RecordBatch, Error>)
        requires
            old(self)@.pages.len() < u32::MAX,
        ensures
            final(self)@.wf(),
            match page_training(sub_index_trainer, old(self)@.names, batch@) {
                Err(e) => crate::error::fails_with(r, e) && final(self)@ == old(self)@,
                Ok((stats, page)) => {
                    &&& r matches Ok(b) && b@ == page
                    &&& final(self)@ == (TrainingView {
                        pages: old(self)@.pages.push(
                            BatchStatsView {
                                column_stats: stats,
                                page_number: old(self)@.pages.len() as u32,
                            },
                        ),
                        ..old(self)@
                    })
                },
            },
    {
        proof {
            use_type_invariant(&*self);
        }
        let batch_idx: u32 = self.pages.len() as u32;
        let (stats, page) = match train_compound_page(
            batch,
            batch_idx,
            &self.column_names,
            sub_index_trainer,
        ) {
            Ok(x) => x,
            Err(e) => {
                return Err(e);
            },
        };
        let ghost before = self@;
        let mut pages: Vec<CompoundBatchStats> = Vec::new();
        std::mem::swap(&mut pages, &mut self.pages);
        let ghost old_pages = pages@;
        pages.push(stats);
        proof {
            assert(crate::stats::batch_stats_views(pages@) =~= crate::stats::batch_stats_views(
                old_pages,
            ).push(stats@));
            assert forall|p: int| 0 <= p < pages@.len() implies {
                let v = #[trigger] crate::stats::batch_stats_views(pages@)[p];
                v.page_number == p && v.column_stats.len() == before.names.len()
            } by {
                if p < old_pages.len() {
                    assert(before.pages[p] == old_pages[p]@);
                }
            }
        }
        self.pages = pages;
        Ok(page)
    }

    /// Finish training: the schema of the lookup file, with the page size in
    /// its metadata, and the lookup batch.
    fn finish(&self) -> (r: Result<(Schema, RecordBatch), Error>)
        ensures
            self@.wf(),
            match crate::stats::stats_defect(self@.pages, self@.types.len()) {
                Some(e) => crate::error::fails_with(r, e),
                None => r matches Ok((schema, batch)) && {
                    &&& batch@ == crate::stats::lookup_batch(
                        self@.pages,
                        self@.names,
                        self@.types,
                    )
                    &&& schema@ == lookup_file_schema(batch@.schema, self@.batch_size)
                },
            },
    {
        proof {
            use_type_invariant(self);
            assert forall|p: int| 0 <= p < self.pages@.len() implies (
            #[trigger] self.pages@[p]).column_stats@.len() >= self.data_types@.len() by {
                assert(self@.pages[p] == self.pages@[p]@);
            }
        }
        let batch = match compound_stats_as_batch(
            &self.pages,
            &self.column_names,
            &self.data_types,
        ) {
            Ok(b) => b,
            Err(e) => {
                return Err(e);
            },
        };
        let mut schema = batch.schema().clone();
        schema.insert_metadata(
            COMPOUND_BATCH_SIZE_META_KEY.to_owned(),
            decimal(self.batch_size),
        );
        Ok((schema, batch))
    }
}

/// The schema of a lookup file: that of the lookup batch, with the page size in
/// the metadata.
pub open spec fn lookup_file_schema(schema: SchemaView, batch_size: u64) -> SchemaView {
    SchemaView {
        fields: schema.fields,
        metadata: schema.metadata.insert(
            COMPOUND_BATCH_SIZE_META_KEY@,
            crate::text::decimal_text(batch_size as nat),
        ),
    }
}

/// Training goes page by page: page `k` gets the number `k`, its own analysis
/// as statistics, and is stored as the trainer trains it.
pub proof fn training_is_by_page<T: CompoundBTreeSubIndex>(
    trainer: &T,
    names: Seq<Seq<char>>,
    input: Seq<BatchView>,
)
    requires
        input.len() <= u32::MAX,
        training_run(trainer, names, input) is Ok,
    ensures
        ({
            let (stats, pages) = training_run(trainer, names, input)->Ok_0;
            &&& stats.len() == input.len()
            &&& pages.len() == input.len()
            &&& forall|k: int|
                #![trigger stats[k]]
                #![trigger input[k]]
                0 <= k < input.len() ==> {
                    &&& stats[k].page_number == k
                    &&& stats[k].column_stats == crate::stats::analysis(input[k], names)
                    &&& crate::stats::analysis_defect(input[k], names) is None
                    &&& trainer.trained(input[k]) == Ok::<BatchView, ErrorView>(pages[k])
                }
        }),
    decreases input.len(),
{
    if input.len() > 0 {
        let before = input.drop_last();
        training_is_by_page(trainer, names, before);
        let (stats, pages) = training_run(trainer, names, input)->Ok_0;
        let (early, stored) = training_run(trainer, names, before)->Ok_0;
        assert forall|k: int|
            #![trigger stats[k]]
            #![trigger input[k]]
            0 <= k < input.len() implies {
            &&& stats[k].page_number == k
            &&& stats[k].column_stats == crate::stats::analysis(input[k], names)
            &&& crate::stats::analysis_defect(input[k], names) is None
            &&& trainer.trained(input[k]) == Ok::<BatchView, ErrorView>(pages[k])
        } by {
            if k < before.len() {
                assert(before[k] == input[k]);
                assert(early[k] == stats[k]);
                assert(stored[k] == pages[k]);
            } else {
                assert(input[k] == input.last());
            }
        }
    }
}

/// The pages of one input agree on the types of their extremes.
proof fn pages_are_uniform<T: CompoundBTreeSubIndex>(
    trainer: &T,
    names: Seq<Seq<char>>,
    batches: Seq<BatchView>,
    size: nat,
)
    requires
        size > 0,
        same_fields(batches),
        forall|p: int| 0 <= p < batches.len() ==> (#[trigger] batches[p]).wf(),
        input_pages(batches, size).len() <= u32::MAX,
        training_run(trainer, names, input_pages(batches, size)) is Ok,
    ensures
        crate::stats::uniform(
            (training_run(trainer, names, input_pages(batches, size))->Ok_0).0,
            names.len(),
        ),
{
    let input = input_pages(batches, size);
    let stats = (training_run(trainer, names, input)->Ok_0).0;
    training_is_by_page(trainer, names, input);
    input_pages_wf(batches, size);
    assert forall|p: int, c: int| 0 <= p < stats.len() && 0 <= c < names.len() implies {
        &&& (#[trigger] stats[p].column_stats[c]).min.data_type
            == stats[0].column_stats[c].min.data_type
        &&& stats[p].column_stats[c].max.data_type == stats[0].column_stats[c].max.data_type
    } by {
        assert(input[p].wf() && input[0].wf());
        page_extremes_typed(input[p], names, c);
        page_extremes_typed(input[0], names, c);
        assert(stats[p].column_stats[c] == crate::stats::analysis(input[p], names)[c]);
        assert(stats[0].column_stats[c] == crate::stats::analysis(input[0], names)[c]);
        assert(input[p].schema == input[0].schema);
    }
}

/// The extremes of a column have the type of its field.
proof fn page_extremes_typed(batch: BatchView, names: Seq<Seq<char>>, c: int)
    requires
        batch.wf(),
        crate::stats::analysis_defect(batch, names) is None,
        0 <= c < names.len(),
    ensures
        batch.index_of(names[c]) is Some,
        ({
            let field = batch.schema.fields[batch.index_of(names[c])->0];
            &&& crate::stats::analysis(batch, names)[c].min.data_type == field.data_type
            &&& crate::stats::analysis(batch, names)[c].max.data_type == field.data_type
        }),
{
    let missing = crate::stats::is_missing(batch, names);
    crate::first::first_where_spec(names.len(), missing);
    assert(!missing(c));
    let named = crate::batch::is_named(batch.schema.fields, names[c]);
    crate::first::first_where_spec(batch.schema.fields.len(), named);
    let k = batch.index_of(names[c])->0;
    crate::stats::extremes_bound(batch.columns[k]);
}

/// The lookup batch of a training describes its pages: it has three fields per
/// column and one more, and row `k` holds the number `k` and, of every column,
/// the smallest value, the largest value and the null count of page `k`.
pub proof fn lookup_describes_pages<T: CompoundBTreeSubIndex>(
    trainer: &T,
    names: Seq<Seq<char>>,
    types: Seq<DataTypeView>,
    batches: Seq<BatchView>,
    size: nat,
)
    requires
        names.len() == types.len(),
        size > 0,
        same_fields(batches),
        forall|p: int| 0 <= p < batches.len() ==> (#[trigger] batches[p]).wf(),
        input_pages(batches, size).len() <= u32::MAX,
        training_run(trainer, names, input_pages(batches, size)) is Ok,
    ensures
        ({
            let input = input_pages(batches, size);
            let stats = (training_run(trainer, names, input)->Ok_0).0;
            let b = crate::stats::lookup_batch(stats, names, types);
            let n = types.len() as int;
            &&& b.rows == input.len()
            &&& b.schema.fields.len() == 3 * n + 1
            &&& b.columns.len() == 3 * n + 1
            &&& forall|k: int, c: int|
                #![trigger crate::stats::analysis(input[k], names)[c]]
                0 <= k < input.len() && 0 <= c < n ==> {
                    let s = crate::stats::analysis(input[k], names)[c];
                    &&& b.columns[3 * c].values[k] == s.min
                    &&& b.columns[3 * c + 1].values[k] == s.max
                    &&& b.columns[3 * c + 2].values[k] == crate::batch::u32_scalar(s.null_count)
                }
            &&& forall|k: int|
                0 <= k < input.len() ==> #[trigger] b.columns[3 * n].values[k]
                    == crate::batch::u32_scalar(k as u32)
        }),
{
    let input = input_pages(batches, size);
    training_is_by_page(trainer, names, input);
    pages_are_uniform(trainer, names, batches, size);
    let stats = (training_run(trainer, names, input)->Ok_0).0;
    let b = crate::stats::lookup_batch(stats, names, types);
    let n = types.len();
    if input.len() > 0 {
        assert forall|k: int, c: int|
            #![trigger crate::stats::analysis(input[k], names)[c]]
            0 <= k < input.len() && 0 <= c < n implies {
            let s = crate::stats::analysis(input[k], names)[c];
            &&& b.columns[3 * c].values[k] == s.min
            &&& b.columns[3 * c + 1].values[k] == s.max
            &&& b.columns[3 * c + 2].values[k] == crate::batch::u32_scalar(s.null_count)
        } by {
            assert(stats[k].column_stats[c] == crate::stats::analysis(input[k], names)[c]);
            assert(b.columns[3 * c] == crate::stats::lookup_column(stats, n, 3 * c));
            assert(b.columns[3 * c + 1] == crate::stats::lookup_column(stats, n, 3 * c + 1));
            assert(b.columns[3 * c + 2] == crate::stats::lookup_column(stats, n, 3 * c + 2));
            assert((3 * c + 1) / 3 == c && (3 * c + 2) / 3 == c && 3 * c / 3 == c);
        }
        assert forall|k: int| 0 <= k < input.len() implies #[trigger] b.columns[3
            * n as int].values[k] == crate::batch::u32_scalar(k as u32) by {
            assert(b.columns[3 * n as int] == crate::stats::lookup_column(
                stats,
                n,
                3 * n as int,
            ));
            assert(stats[k].page_number == k);
        }
    }
}

/// The input of a training is well formed, page by page.
pub(crate) proof fn input_pages_wf(batches: Seq<BatchView>, size: nat)
    requires
        size > 0,
        same_fields(batches),
        forall|p: int| 0 <= p < batches.len() ==> (#[trigger] batches[p]).wf(),
    ensures
        input_pages(batches, size).len() == pages_for(total_rows(batches), size),
        forall|k: int|
            0 <= k < input_pages(batches, size).len() ==> (#[trigger] input_pages(
                batches,
                size,
            )[k]).wf(),
{
    if batches.len() == 0 {
        crate::pages::pages_for_bounds(0, size);
    } else {
        let all = crate::batch::concatenated(batches[0].schema, batches);
        crate::batch::concatenated_wf(batches[0].schema, batches);
        assert forall|k: int| 0 <= k < input_pages(batches, size).len() implies (
        #[trigger] input_pages(batches, size)[k]).wf() by {
            crate::pages::page_wf(all, size, k);
        }
    }
}

/// What a flat trainer is trained on has the types of its schema.
proof fn trained_types(
    batch: BatchView,
    names: Seq<Seq<char>>,
    types: Seq<DataTypeView>,
    c: int,
)
    requires
        batch.wf(),
        names.len() == types.len(),
        crate::stats::analysis_defect(batch, names) is None,
        crate::flat::flat_page(crate::flat::flat_schema(names, types), names, batch) is Ok,
        0 <= c < names.len(),
    ensures
        crate::stats::analysis(batch, names)[c].min.data_type == types[c],
        crate::stats::analysis(batch, names)[c].max.data_type == types[c],
{
    let schema = crate::flat::flat_schema(names, types);
    let columns = crate::flat::page_columns(batch, names);
    let missing = crate::stats::is_missing(batch, names);
    crate::first::first_where_spec(names.len(), missing);
    assert(!missing(c));
    let named = crate::batch::is_named(batch.schema.fields, names[c]);
    crate::first::first_where_spec(batch.schema.fields.len(), named);
    let k = batch.index_of(names[c])->0;
    assert(batch.columns[k] == columns[c]);
    let other = crate::batch::has_other_type(schema.fields, columns);
    crate::first::first_where_spec(columns.len(), other);
    assert(!other(c));
    crate::stats::extremes_bound(columns[c]);
}

/// What is trained can be loaded. The lookup file of a training with flat pages
/// reads back as one entry per page, in order, with the statistics of the page;
/// the pages are as many as it takes for the rows of the input; the types are
/// those of the index; and the page size is the one trained with.
pub proof fn trained_index_loads(
    trainer: &CompoundFlatIndexMetadata,
    types: Seq<DataTypeView>,
    batches: Seq<BatchView>,
    batch_size: u64,
)
    requires
        trainer.names().len() == types.len(),
        trainer.page_schema() == crate::flat::flat_schema(trainer.names(), types),
        page_len(batch_size) > 0,
        same_fields(batches),
        forall|p: int| 0 <= p < batches.len() ==> (#[trigger] batches[p]).wf(),
        pages_for(total_rows(batches), page_len(batch_size)) <= u32::MAX,
        training_run(
            trainer,
            trainer.names(),
            input_pages(batches, page_len(batch_size)),
        ) is Ok,
    ensures
        ({
            let names = trainer.names();
            let input = input_pages(batches, page_len(batch_size));
            let stats = (training_run(trainer, names, input)->Ok_0).0;
            let batch = crate::stats::lookup_batch(stats, names, types);
            let parsed = crate::lookup::parsed_lookup(batch, names.len());
            &&& crate::lookup::readable_lookup(batch, names.len())
            &&& crate::lookup::lookup_defect(batch, names) is None
            &&& parsed.page_stats.len() == pages_for(total_rows(batches), page_len(batch_size))
            &&& parsed.data_types == types
            &&& forall|k: int|
                0 <= k < input.len() ==> #[trigger] parsed.page_stats[k]
                    == crate::stats::as_page_stats(
                    BatchStatsView {
                        column_stats: crate::stats::analysis(input[k], names),
                        page_number: k as u32,
                    },
                )
            &&& crate::index::recorded_batch_size(
                lookup_file_schema(batch.schema, batch_size).metadata,
            ) == batch_size
        }),
{
    let names = trainer.names();
    let input = input_pages(batches, page_len(batch_size));
    let stats = (training_run(trainer, names, input)->Ok_0).0;
    input_pages_wf(batches, page_len(batch_size));
    training_is_by_page(trainer, names, input);
    assert forall|k: int, c: int| 0 <= k < stats.len() && 0 <= c < types.len() implies {
        &&& (#[trigger] stats[k].column_stats[c]).min.data_type == types[c]
        &&& stats[k].column_stats[c].max.data_type == types[c]
    } by {
        assert(input[k].wf());
        trained_types(input[k], names, types, c);
        assert(stats[k].column_stats[c] == crate::stats::analysis(input[k], names)[c]);
    }
    assert(crate::stats::uniform(stats, types.len())) by {
        assert forall|p: int, c: int| 0 <= p < stats.len() && 0 <= c < types.len() implies {
            &&& (#[trigger] stats[p].column_stats[c]).min.data_type
                == stats[0].column_stats[c].min.data_type
            &&& stats[p].column_stats[c].max.data_type == stats[0].column_stats[c].max.data_type
        } by {
            assert(stats[0].column_stats[c].min.data_type == types[c]);
        }
    }
    crate::stats::lookup_round_trip(stats, names, types);
    crate::text::decimal_text_parses(batch_size);
    let batch = crate::stats::lookup_batch(stats, names, types);
    let parsed = crate::lookup::parsed_lookup(batch, names.len());
    if stats.len() > 0 {
        assert(crate::stats::min_types(stats, types.len()) =~= types);
    }
    assert forall|k: int| 0 <= k < input.len() implies #[trigger] parsed.page_stats[k]
        == crate::stats::as_page_stats(
        BatchStatsView {
            column_stats: crate::stats::analysis(input[k], names),
            page_number: k as u32,
        },
    ) by {
        assert(stats[k] =~= BatchStatsView {
            column_stats: crate::stats::analysis(input[k], names),
            page_number: k as u32,
        });
    }
}

/// A flat page has the named columns of what it was trained on, and its row
/// ids.
pub(crate) proof fn flat_page_columns(
    batch: BatchView,
    names: Seq<Seq<char>>,
    types: Seq<DataTypeView>,
)
    requires
        batch.wf(),
        names.len() == types.len(),
        crate::flat::flat_page(crate::flat::flat_schema(names, types), names, batch) is Ok,
    ensures
        ({
            let page = crate::flat::flat_page(
                crate::flat::flat_schema(names, types),
                names,
                batch,
            )->Ok_0;
            &&& page.rows == batch.rows
            &&& crate::index::page_whole(page, names)
            &&& page.column_by_name(COMPOUND_IDS_COLUMN@) == batch.column_by_name(
                COMPOUND_IDS_COLUMN@,
            )
            &&& forall|c: int|
                0 <= c < names.len() ==> {
                    &&& page.column_by_name(#[trigger] names[c]) == batch.column_by_name(names[c])
                    &&& (batch.column_by_name(names[c])->0).values.len() == batch.rows
                    &&& (batch.column_by_name(names[c])->0).typed()
                }
        }),
{
    let schema = crate::flat::flat_schema(names, types);
    let page = crate::flat::flat_page(schema, names, batch)->Ok_0;
    let fields = schema.fields;
    let missing = crate::stats::is_missing(batch, names);
    crate::first::first_where_spec(names.len(), missing);
    let ids = crate::batch::is_named(batch.schema.fields, COMPOUND_IDS_COLUMN@);
    crate::first::first_where_spec(batch.schema.fields.len(), ids);
    assert forall|c: int| 0 <= c < names.len() implies {
        &&& batch.column_by_name(#[trigger] names[c]) is Some
        &&& (batch.column_by_name(names[c])->0).values.len() == batch.rows
        &&& (batch.column_by_name(names[c])->0).typed()
    } by {
        assert(!missing(c));
        let named = crate::batch::is_named(batch.schema.fields, names[c]);
        crate::first::first_where_spec(batch.schema.fields.len(), named);
        assert(batch.columns[batch.index_of(names[c])->0] == batch.column_by_name(names[c])->0);
    }
    assert forall|x: Seq<char>| names.contains(x) || x == COMPOUND_IDS_COLUMN@ implies
        #[trigger] page.column_by_name(x) == batch.column_by_name(x) by {
        let p = crate::batch::is_named(fields, x);
        crate::first::first_where_spec(fields.len(), p);
        if x == COMPOUND_IDS_COLUMN@ {
            assert(p(names.len() as int));
        } else {
            let c = choose|c: int| 0 <= c < names.len() && names[c] == x;
            assert(p(c));
        }
        let i = crate::first::first_where(fields.len(), p)->0;
        assert(fields[i].name == x);
        if i < names.len() {
            assert(page.columns[i] == batch.column_by_name(names[i])->0);
        }
    }
    assert forall|c: int| 0 <= c < names.len() implies page.column_by_name(#[trigger] names[c])
        == batch.column_by_name(names[c]) by {
        assert(names.contains(names[c]));
    }
    let i = batch.index_of(COMPOUND_IDS_COLUMN@)->0;
    assert(batch.columns[i].values.len() == batch.rows);
    if names.len() > 0 {
        assert(batch.column_by_name(names[0]) is Some);
    }
}

/// Some rows of a batch that can be trained on can be trained on.
pub(crate) proof fn slice_trains(
    batch: BatchView,
    names: Seq<Seq<char>>,
    types: Seq<DataTypeView>,
    from: int,
    to: int,
)
    requires
        batch.wf(),
        0 <= from <= to <= batch.rows,
        names.len() == types.len(),
        crate::flat::flat_page(crate::flat::flat_schema(names, types), names, batch) is Ok,
    ensures
        crate::flat::flat_page(
            crate::flat::flat_schema(names, types),
            names,
            crate::batch::sliced(batch, from, to),
        ) is Ok,
        forall|x: Seq<char>|
            #![trigger batch.column_by_name(x)]
            batch.column_by_name(x) is Some ==> crate::batch::sliced(
                batch,
                from,
                to,
            ).column_by_name(x) == Some(
                crate::batch::ColumnView {
                    data_type: (batch.column_by_name(x)->0).data_type,
                    values: (batch.column_by_name(x)->0).values.subrange(from, to),
                },
            ),
{
    let schema = crate::flat::flat_schema(names, types);
    let fields = schema.fields;
    let slice = crate::batch::sliced(batch, from, to);
    assert forall|x: Seq<char>| slice.index_of(x) == batch.index_of(x) by {}
    assert forall|x: Seq<char>|
        #![trigger batch.column_by_name(x)]
        batch.column_by_name(x) is Some implies slice.column_by_name(x) == Some(
        crate::batch::ColumnView {
            data_type: (batch.column_by_name(x)->0).data_type,
            values: (batch.column_by_name(x)->0).values.subrange(from, to),
        },
    ) by {
        assert(slice.index_of(x) == batch.index_of(x));
        crate::first::first_where_spec(
            batch.schema.fields.len(),
            crate::batch::is_named(batch.schema.fields, x),
        );
    }
    flat_page_columns(batch, names, types);
    let missing = crate::stats::is_missing(slice, names);
    crate::first::first_where_spec(names.len(), crate::stats::is_missing(batch, names));
    assert forall|c: int| 0 <= c < names.len() implies !(#[trigger] missing(c)) by {
        assert(!crate::stats::is_missing(batch, names)(c));
        assert(batch.column_by_name(names[c]) is Some);
    }
    crate::first::first_where_absent(names.len(), missing);
    let whole = crate::flat::page_columns(batch, names);
    let part = crate::flat::page_columns(slice, names);
    assert(batch.column_by_name(COMPOUND_IDS_COLUMN@) is Some);
    assert forall|i: int| 0 <= i < part.len() implies {
        &&& (#[trigger] part[i]).data_type == whole[i].data_type
        &&& part[i].values == whole[i].values.subrange(from, to)
        &&& whole[i].values.len() == batch.rows
    } by {
        if i < names.len() {
            assert(batch.column_by_name(names[i]) is Some);
        } else {
            crate::first::first_where_spec(
                batch.schema.fields.len(),
                crate::batch::is_named(batch.schema.fields, COMPOUND_IDS_COLUMN@),
            );
            assert(batch.columns[batch.index_of(COMPOUND_IDS_COLUMN@)->0] == whole[i]);
        }
    }
    let null = crate::batch::has_forbidden_null(fields, part);
    crate::first::first_where_spec(
        whole.len(),
        crate::batch::has_forbidden_null(fields, whole),
    );
    assert forall|i: int| 0 <= i < part.len() implies !(#[trigger] null(i)) by {
        if null(i) {
            let k = choose|k: int|
                0 <= k < part[i].values.len() && (#[trigger] part[i].values[k]).is_null();
            assert(whole[i].values[k + from].is_null());
            assert(crate::batch::has_forbidden_null(fields, whole)(i));
        }
    }
    crate::first::first_where_absent(part.len(), null);
    let other = crate::batch::has_other_type(fields, part);
    crate::first::first_where_spec(whole.len(), crate::batch::has_other_type(fields, whole));
    assert forall|i: int| 0 <= i < part.len() implies !(#[trigger] other(i)) by {
        assert(!crate::batch::has_other_type(fields, whole)(i));
        assert(part[i].data_type == whole[i].data_type);
    }
    crate::first::first_where_absent(part.len(), other);
}

/// The flat pages of a batch that is cut into pages.
pub open spec fn stored_pages(
    names: Seq<Seq<char>>,
    types: Seq<DataTypeView>,
    batch: BatchView,
    size: nat,
) -> Seq<BatchView> {
    Seq::new(
        cut(batch, size).len(),
        |k: int|
            crate::flat::flat_page(
                crate::flat::flat_schema(names, types),
                names,
                cut(batch, size)[k],
            )->Ok_0,
    )
}

/// The pages that a training with flat pages stores for a batch are its flat
/// pages.
pub proof fn trained_pages_are_stored(
    trainer: &CompoundFlatIndexMetadata,
    types: Seq<DataTypeView>,
    batch: BatchView,
    size: nat,
)
    requires
        trainer.page_schema() == crate::flat::flat_schema(trainer.names(), types),
        cut(batch, size).len() <= u32::MAX,
        training_run(trainer, trainer.names(), cut(batch, size)) is Ok,
    ensures
        (training_run(trainer, trainer.names(), cut(batch, size))->Ok_0).1 == stored_pages(
            trainer.names(),
            types,
            batch,
            size,
        ),
{
    let input = cut(batch, size);
    let pages = (training_run(trainer, trainer.names(), input)->Ok_0).1;
    training_is_by_page(trainer, trainer.names(), input);
    assert forall|k: int| 0 <= k < pages.len() implies pages[k] == stored_pages(
        trainer.names(),
        types,
        batch,
        size,
    )[k] by {
        assert(trainer.trained(input[k]) == Ok::<BatchView, ErrorView>(pages[k]));
    }
    assert(pages =~= stored_pages(trainer.names(), types, batch, size));
}

/// A row of a stored page is that of the whole.
proof fn stored_row(
    names: Seq<Seq<char>>,
    types: Seq<DataTypeView>,
    batch: BatchView,
    size: nat,
    k: int,
    m: int,
    prefix: Seq<ScalarView>,
    range: Option<(Bound<ScalarView>, Bound<ScalarView>)>,
    id: u64,
)
    requires
        batch.wf(),
        names.len() == types.len(),
        size > 0,
        prefix.len() <= names.len(),
        crate::flat::flat_page(crate::flat::flat_schema(names, types), names, batch) is Ok,
        0 <= k < cut(batch, size).len(),
    ensures
        crate::index::page_whole(stored_pages(names, types, batch, size)[k], names),
        stored_pages(names, types, batch, size)[k].rows == cut(batch, size)[k].rows,
        0 <= m < cut(batch, size)[k].rows ==> crate::index::row_found(
            stored_pages(names, types, batch, size)[k],
            names,
            prefix,
            range,
            m,
            id,
        ) == crate::index::row_found(
            crate::flat::flat_page(crate::flat::flat_schema(names, types), names, batch)->Ok_0,
            names,
            prefix,
            range,
            k * size + m,
            id,
        ),
{
    let whole = crate::flat::flat_page(
        crate::flat::flat_schema(names, types),
        names,
        batch,
    )->Ok_0;
    let from = k * size;
    let to = crate::pages::page_end(batch.rows, size, k);
    let slice = cut(batch, size)[k];
    let page = stored_pages(names, types, batch, size)[k];
    crate::pages::page_bounds(batch.rows, size, k);
    crate::pages::page_wf(batch, size, k);
    slice_trains(batch, names, types, from, to);
    flat_page_columns(batch, names, types);
    flat_page_columns(slice, names, types);
    if 0 <= m < slice.rows {
        crate::index::prefix_row_meaning(page, names, prefix, range, m);
        crate::index::prefix_row_meaning(whole, names, prefix, range, from + m);
        assert forall|c: int| 0 <= c < names.len() implies (page.column_by_name(
            #[trigger] names[c],
        )->0).values[m] == (whole.column_by_name(names[c])->0).values[from + m] by {
            assert(whole.column_by_name(names[c]) == batch.column_by_name(names[c]));
            assert(page.column_by_name(names[c]) == slice.column_by_name(names[c]));
            assert(batch.column_by_name(names[c]) is Some);
        }
        if prefix.len() < names.len() {
            assert(page.column_by_name(names[prefix.len() as int]) is Some);
        }
        assert(batch.column_by_name(COMPOUND_IDS_COLUMN@) is Some);
        crate::first::first_where_spec(
            batch.schema.fields.len(),
            crate::batch::is_named(batch.schema.fields, COMPOUND_IDS_COLUMN@),
        );
        assert(crate::index::row_id(page)(m) == crate::index::row_id(whole)(from + m));
    }
}

/// Cutting into pages changes nothing that a search by prefix finds: it finds
/// exactly the ids of the matching rows of the whole.
pub proof fn paged_search_is_whole(
    names: Seq<Seq<char>>,
    types: Seq<DataTypeView>,
    batch: BatchView,
    size: nat,
    prefix: Seq<ScalarView>,
    range: Option<(Bound<ScalarView>, Bound<ScalarView>)>,
    id: u64,
)
    requires
        batch.wf(),
        names.len() == types.len(),
        size > 0,
        prefix.len() <= names.len(),
        crate::flat::flat_page(crate::flat::flat_schema(names, types), names, batch) is Ok,
    ensures
        crate::index::pages_result(
            stored_pages(names, types, batch, size),
            names,
            types,
            QueryView::PrefixLookup { prefix, range },
        ) matches Ok(found) && (found.contains(id) <==> exists|row: int|
            #[trigger] crate::index::row_found(
                crate::flat::flat_page(
                    crate::flat::flat_schema(names, types),
                    names,
                    batch,
                )->Ok_0,
                names,
                prefix,
                range,
                row,
                id,
            )),
{
    let whole = crate::flat::flat_page(
        crate::flat::flat_schema(names, types),
        names,
        batch,
    )->Ok_0;
    let pages = stored_pages(names, types, batch, size);
    assert forall|k: int| 0 <= k < pages.len() implies crate::index::page_whole(
        #[trigger] pages[k],
        names,
    ) by {
        stored_row(names, types, batch, size, k, 0, prefix, range, id);
    }
    crate::index::prefix_search_finds_matches(pages, names, types, prefix, range, id);
    flat_page_columns(batch, names, types);
    if exists|k: int, m: int|
        0 <= k < pages.len() && #[trigger] crate::index::row_found(
            pages[k],
            names,
            prefix,
            range,
            m,
            id,
        ) {
        let (k, m) = choose|k: int, m: int|
            0 <= k < pages.len() && #[trigger] crate::index::row_found(
                pages[k],
                names,
                prefix,
                range,
                m,
                id,
            );
        stored_row(names, types, batch, size, k, m, prefix, range, id);
        assert(crate::index::row_found(whole, names, prefix, range, k * size + m, id));
    }
    if exists|row: int| #[trigger] crate::index::row_found(whole, names, prefix, range, row, id) {
        let row = choose|row: int|
            #[trigger] crate::index::row_found(whole, names, prefix, range, row, id);
        crate::pages::row_is_on_page(batch, size, row);
        let k = row / (size as int);
        let m = row % (size as int);
        vstd::arithmetic::div_mod::lemma_fundamental_div_mod(row, size as int);
        assert(size as int * k == k * size) by (nonlinear_arith);
        stored_row(names, types, batch, size, k, m, prefix, range, id);
        assert(crate::index::row_found(pages[k], names, prefix, range, m, id));
    }
}

/// What a search by prefix finds does not depend on the page size.
pub proof fn search_ignores_page_size(
    names: Seq<Seq<char>>,
    types: Seq<DataTypeView>,
    batch: BatchView,
    size: nat,
    other_size: nat,
    prefix: Seq<ScalarView>,
    range: Option<(Bound<ScalarView>, Bound<ScalarView>)>,
)
    requires
        batch.wf(),
        names.len() == types.len(),
        size > 0,
        other_size > 0,
        prefix.len() <= names.len(),
        crate::flat::flat_page(crate::flat::flat_schema(names, types), names, batch) is Ok,
    ensures
        crate::index::pages_result(
            stored_pages(names, types, batch, size),
            names,
            types,
            QueryView::PrefixLookup { prefix, range },
        ) == crate::index::pages_result(
            stored_pages(names, types, batch, other_size),
            names,
            types,
            QueryView::PrefixLookup { prefix, range },
        ),
{
    let query = QueryView::PrefixLookup { prefix, range };
    let a = crate::index::pages_result(
        stored_pages(names, types, batch, size),
        names,
        types,
        query,
    );
    let b = crate::index::pages_result(
        stored_pages(names, types, batch, other_size),
        names,
        types,
        query,
    );
    paged_search_is_whole(names, types, batch, size, prefix, range, 0);
    paged_search_is_whole(names, types, batch, other_size, prefix, range, 0);
    assert forall|id: u64| a->Ok_0.contains(id) == b->Ok_0.contains(id) by {
        paged_search_is_whole(names, types, batch, size, prefix, range, id);
        paged_search_is_whole(names, types, batch, other_size, prefix, range, id);
    }
    assert(a->Ok_0 =~= b->Ok_0);
}

/// A trained page has all its columns, and the statistics recorded for it cover
/// each of them.
pub proof fn trained_page_is_covered(
    batch: BatchView,
    schema: SchemaView,
    names: Seq<Seq<char>>,
    types: Seq<DataTypeView>,
    page_number: u32,
)
    requires
        batch.wf(),
        batch.rows <= u32::MAX,
        names.len() == types.len(),
        schema == crate::flat::flat_schema(names, types),
        crate::stats::analysis_defect(batch, names) is None,
        crate::flat::flat_page(schema, names, batch) is Ok,
    ensures
        ({
            let page = crate::flat::flat_page(schema, names, batch)->Ok_0;
            let stats = crate::stats::as_page_stats(
                BatchStatsView { column_stats: crate::stats::analysis(batch, names), page_number },
            );
            &&& crate::index::page_whole(page, names)
            &&& crate::index::page_covered(page, names, stats)
        }),
{
    let column_stats = crate::stats::analysis(batch, names);
    let stats = crate::stats::as_page_stats(BatchStatsView { column_stats, page_number });
    flat_page_columns(batch, names, types);
    assert forall|c: int| 0 <= c < names.len() implies {
        let col = batch.column_by_name(#[trigger] names[c])->0;
        crate::lookup::stats_cover(
            col.values,
            stats.mins[c],
            stats.maxs[c],
            stats.null_counts[c],
        )
    } by {
        let col = batch.column_by_name(names[c])->0;
        assert(col.typed());
        crate::stats::analysis_covers(col);
        assert(column_stats[c] == crate::stats::column_stats_of(col));
    }
}

/// An index finds exactly the matching rows: for pages that were trained,
/// searching those that their statistics do not rule out finds what searching
/// all of them would, whatever the query.
pub proof fn trained_index_is_exact(
    batches: Seq<BatchView>,
    schema: SchemaView,
    names: Seq<Seq<char>>,
    types: Seq<DataTypeView>,
    query: QueryView,
)
    requires
        batches.len() <= u32::MAX,
        names.len() == types.len(),
        schema == crate::flat::flat_schema(names, types),
        crate::index::query_fits(query, names.len()),
        forall|p: int|
            0 <= p < batches.len() ==> {
                let batch = #[trigger] batches[p];
                &&& batch.wf()
                &&& batch.rows <= u32::MAX
                &&& crate::stats::analysis_defect(batch, names) is None
                &&& crate::flat::flat_page(schema, names, batch) is Ok
            },
    ensures
        ({
            let pages = Seq::new(
                batches.len(),
                |p: int| crate::flat::flat_page(schema, names, batches[p])->Ok_0,
            );
            let stats = Seq::new(
                batches.len(),
                |p: int|
                    crate::stats::as_page_stats(
                        BatchStatsView {
                            column_stats: crate::stats::analysis(batches[p], names),
                            page_number: p as u32,
                        },
                    ),
            );
            crate::index::pages_result(pages, names, types, query) == crate::index::pages_result(
                crate::index::unpruned(pages, stats, names.len(), query),
                names,
                types,
                query,
            )
        }),
{
    let pages = Seq::new(
        batches.len(),
        |p: int| crate::flat::flat_page(schema, names, batches[p])->Ok_0,
    );
    let stats = Seq::new(
        batches.len(),
        |p: int|
            crate::stats::as_page_stats(
                BatchStatsView {
                    column_stats: crate::stats::analysis(batches[p], names),
                    page_number: p as u32,
                },
            ),
    );
    assert forall|p: int| 0 <= p < pages.len() implies crate::index::page_whole(
        #[trigger] pages[p],
        names,
    ) && crate::index::page_covered(pages[p], names, stats[p]) by {
        trained_page_is_covered(batches[p], schema, names, types, p as u32);
    }
    crate::index::candidates_suffice(pages, stats, names, types, query);
}

/// A full index has the files of an index; a part has files of its own, named by
/// its first fragment as the upper half of a row address.
pub proof fn parts_are_named_by_fragment(ids: Option<Vec<u32>>)
    ensures
        match ids {
            Some(v) if v@.len() > 0 => {
                let number = crate::text::decimal_text((v@[0] * 4294967296) as nat);
                file_names(fragment_mask(opt_ids(ids))) == (
                    "part_"@ + number + "_compound_page_data.lance"@,
                    "part_"@ + number + "_compound_page_lookup.lance"@,
                )
            },
            _ => file_names(fragment_mask(opt_ids(ids))) == (
                "compound_page_data.lance"@,
                "compound_page_lookup.lance"@,
            ),
        },
{
}

/// Parts with different first fragments have different files, and none of them
/// are those of a full index.
pub proof fn parts_have_their_own_files(a: Seq<u32>, b: Seq<u32>)
    requires
        a.len() > 0,
        b.len() > 0,
        a[0] != b[0],
    ensures
        file_names(fragment_mask(Some(a))).0 != file_names(fragment_mask(Some(b))).0,
        file_names(fragment_mask(Some(a))).1 != file_names(fragment_mask(Some(b))).1,
        file_names(fragment_mask(Some(a))).0 != file_names(fragment_mask(None)).0,
        file_names(fragment_mask(Some(a))).1 != file_names(fragment_mask(None)).1,
{
    let x = (a[0] * 0x1_0000_0000) as nat;
    let y = (b[0] * 0x1_0000_0000) as nat;
    assert(x != y);
    let dx = crate::text::decimal_text(x);
    let dy = crate::text::decimal_text(y);
    if dx == dy {
        crate::text::decimal_text_injective(x, y);
    }
    let fa = file_names(fragment_mask(Some(a)));
    let fb = file_names(fragment_mask(Some(b)));
    reveal_strlit("part_");
    reveal_strlit("compound_page_data.lance");
    reveal_strlit("compound_page_lookup.lance");
    assert(fa.0[0] == 'p');
    assert(fa.1[0] == 'p');
    framed_texts_differ("part_"@, dx, dy, "_compound_page_data.lance"@);
    framed_texts_differ("part_"@, dx, dy, "_compound_page_lookup.lance"@);
}

/// Different texts in the same frame make different texts.
proof fn framed_texts_differ(before: Seq<char>, x: Seq<char>, y: Seq<char>, after: Seq<char>)
    requires
        x != y,
    ensures
        before + x + after != before + y + after,
{
    let a = before + x + after;
    let b = before + y + after;
    let n = before.len() as int;
    if a == b {
        assert(a.len() == n + x.len() + after.len());
        assert(b.len() == n + y.len() + after.len());
        assert(a.subrange(n, n + x.len()) =~= x);
        assert(b.subrange(n, n + y.len()) =~= y);
    }
}

/// A page has as many rows as the page size says, where they can be counted.
pub proof fn page_has_page_size_rows(batch_size: u64)
    requires
        batch_size <= usize::MAX,
    ensures
        page_len(batch_size) == batch_size,
{
}

/// A lookup file has the fields of the lookup batch, and its metadata with the
/// page size, in decimal, under its key.
pub proof fn lookup_file_says_page_size(schema: SchemaView, batch_size: u64, key: Seq<char>)
    ensures
        lookup_file_schema(schema, batch_size).fields == schema.fields,
        lookup_file_schema(schema, batch_size).metadata.contains_pair(
            "batch_size"@,
            crate::text::decimal_text(batch_size as nat),
        ),
        key != "batch_size"@ ==> (lookup_file_schema(schema, batch_size).metadata.contains_key(key)
            <==> schema.metadata.contains_key(key)),
        key != "batch_size"@ && schema.metadata.contains_key(key) ==> lookup_file_schema(
            schema,
            batch_size,
        ).metadata[key] == schema.metadata[key],
{
}

/// Training stops at the first page that cannot be analyzed or trained, with
/// that page's error, and at no other.
pub proof fn training_stops_at_first_error<T: CompoundBTreeSubIndex>(
    trainer: &T,
    names: Seq<Seq<char>>,
    input: Seq<BatchView>,
    k: int,
)
    ensures
        (forall|j: int|
            0 <= j < input.len() ==> crate::stats::analysis_defect(#[trigger] input[j], names) is None
                && trainer.trained(input[j]) is Ok) ==> training_run(trainer, names, input) is Ok,
        0 <= k < input.len() && (forall|j: int|
            0 <= j < k ==> crate::stats::analysis_defect(#[trigger] input[j], names) is None
                && trainer.trained(input[j]) is Ok) ==> (match (
            crate::stats::analysis_defect(input[k], names),
            trainer.trained(input[k]),
        ) {
            (Some(e), _) => training_run(trainer, names, input) == Err::<
                (Seq<BatchStatsView>, Seq<BatchView>),
                ErrorView,
            >(e),
            (None, Err(e)) => training_run(trainer, names, input) == Err::<
                (Seq<BatchStatsView>, Seq<BatchView>),
                ErrorView,
            >(e),
            (None, Ok(_)) => true,
        }),
    decreases input.len(),
{
    if input.len() > 0 {
        let before = input.drop_last();
        training_stops_at_first_error(trainer, names, before, k);
        assert forall|j: int| 0 <= j < before.len() implies #[trigger] before[j] == input[j] by {}
        assert(input.last() == input[input.len() - 1]);
    }
}

/// The names of an index's files, as they are given, are those of the whole index
/// without fragments and those of the first fragment's part with some.
pub proof fn given_names_are_by_fragment(ids: &Option<Vec<u32>>, r: (String, String))
    requires
        call_ensures(index_file_names, (ids,), r),
    ensures
        match *ids {
            Some(v) if v@.len() > 0 => {
                let number = crate::text::decimal_text((v@[0] * 4294967296) as nat);
                &&& r.0@ == "part_"@ + number + "_compound_page_data.lance"@
                &&& r.1@ == "part_"@ + number + "_compound_page_lookup.lance"@
            },
            _ => r.0@ == "compound_page_data.lance"@ && r.1@ == "compound_page_lookup.lance"@,
        },
{
}

/// A training that succeeds stores every page of the input as the trainer trains
/// it, in order, has a row of statistics for each, under its number, and records
/// the page size.
pub proof fn training_stores_every_page<T: CompoundBTreeSubIndex>(
    batches: &Vec<RecordBatch>,
    trainer: &T,
    compound_schema: &CompoundIndexSchema,
    batch_size: u64,
    fragment_ids: &Option<Vec<u32>>,
    t: TrainedIndex,
    k: int,
)
    requires
        call_ensures(
            train_compound_btree_index::<T>,
            (batches, trainer, compound_schema, batch_size, fragment_ids),
            Ok(t),
        ),
        compound_schema.column_texts().len() == compound_schema.type_views().len(),
        compound_schema.column_texts().len() > 0,
        0 < batch_size <= usize::MAX,
        input_pages(crate::batch::batches_view(batches@), batch_size as nat).len() <= u32::MAX,
        0 <= k < t.pages@.len(),
    ensures
        ({
            let input = input_pages(crate::batch::batches_view(batches@), batch_size as nat);
            let n = compound_schema.column_texts().len() as int;
            &&& t.pages@.len() == input.len()
            &&& trainer.trained(input[k]) == Ok::<BatchView, ErrorView>(t.pages@[k]@)
            &&& t.lookup_batch@.rows == input.len()
            &&& t.lookup_batch@.columns[3 * n].values[k] == crate::scalar::ScalarValue::UInt32(
                Some(k as u32),
            )@
            &&& t.lookup_schema@.metadata.contains_pair(
                "batch_size"@,
                crate::text::decimal_text(batch_size as nat),
            )
        }),
{
    let names = compound_schema.column_texts();
    let types = compound_schema.type_views();
    let input = input_pages(crate::batch::batches_view(batches@), page_len(batch_size));
    assert(page_len(batch_size) == batch_size as nat);
    training_is_by_page(trainer, names, input);
    let (stats, pages) = training_run(trainer, names, input)->Ok_0;
    assert(crate::batch::batches_view(t.pages@)[k] == t.pages@[k]@);
    assert(pages.len() == t.pages@.len());
    assert(stats[k].page_number == k);
    assert(trainer.trained(input[k]) == Ok::<BatchView, ErrorView>(pages[k]));
    crate::stats::lookup_batch_is_laid_out(stats, names, types, 0, k);
}

} // verus!
