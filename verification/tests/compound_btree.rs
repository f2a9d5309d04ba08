use std::collections::HashMap;

use lance_compound::batch::{Column, RecordBatch};
use lance_compound::compound::{Bound, CompoundIndexSchema, CompoundKey, CompoundSargableQuery};
use lance_compound::datatype::{DataType, Field, Schema, TimeUnit};
use lance_compound::error::Error;
use lance_compound::flat::{CompoundBTreeSubIndex, CompoundFlatIndexMetadata, COMPOUND_IDS_COLUMN};
use lance_compound::index::{
    CachedCompoundPage, CompoundBTreeIndex, CompoundBTreePageKey, SearchResult,
    DEFAULT_COMPOUND_BATCH_SIZE,
};
use lance_compound::lookup::{CompoundBTreeLookup, CompoundPageStats};
use lance_compound::pages::cut_pages;
use lance_compound::parser::{CompoundQueryParser, Operator};
use lance_compound::plugin::{
    created_index, derive_index_params, CompoundBTreeIndexDetails, CompoundBTreeIndexPlugin,
    CompoundBTreeParameters, CompoundBTreeTrainingRequest, TrainingOrdering,
};
use lance_compound::rows::create_compound_row_converter;
use lance_compound::scalar::{DayTime, MonthDayNano, Order, ScalarValue, WideInt};
use lance_compound::stats::{
    analyze_compound_batch, compound_stats_as_batch, ColumnStats, CompoundBatchStats,
};
use lance_compound::train::{index_file_names, train_compound_btree_index, TrainedIndex};
use lance_core::utils::mask::RowAddrTreeMap;

fn utf8(s: &str) -> ScalarValue {
    ScalarValue::Utf8(Some(s.to_string()))
}

fn int64(n: i64) -> ScalarValue {
    ScalarValue::Int64(Some(n))
}

fn texts(v: &[&str]) -> Column {
    Column::try_new(DataType::Utf8, v.iter().map(|s| utf8(s)).collect()).unwrap()
}

fn ints(v: &[i64]) -> Column {
    Column::try_new(DataType::Int64, v.iter().map(|n| int64(*n)).collect()).unwrap()
}

fn ids(v: &[u64]) -> Column {
    let values = v.iter().map(|n| ScalarValue::UInt64(Some(*n))).collect();
    Column::try_new(DataType::UInt64, values).unwrap()
}

fn counts(v: &[u32]) -> Column {
    let values = v.iter().map(|n| ScalarValue::UInt32(Some(*n))).collect();
    Column::try_new(DataType::UInt32, values).unwrap()
}

fn names(v: &[&str]) -> Vec<String> {
    v.iter().map(|s| s.to_string()).collect()
}

fn batch(fields: Vec<Field>, columns: Vec<Column>) -> RecordBatch {
    RecordBatch::try_new(Schema::new(fields), columns).unwrap()
}

fn addrs(m: &RowAddrTreeMap) -> Vec<u64> {
    let mut out: Vec<u64> = m
        .row_addrs()
        .map(|iter| iter.map(u64::from).collect())
        .unwrap_or_default();
    out.sort();
    out
}

fn exact(r: SearchResult) -> Vec<u64> {
    match r {
        SearchResult::Exact(m) => addrs(&m),
    }
}

fn two_page_stats(first_nulls: Vec<u32>, second_nulls: Vec<u32>) -> Vec<CompoundPageStats> {
    vec![
        CompoundPageStats {
            mins: vec![utf8("a"), int64(1)],
            maxs: vec![utf8("c"), int64(100)],
            null_counts: first_nulls,
            page_number: 0,
        },
        CompoundPageStats {
            mins: vec![utf8("d"), int64(101)],
            maxs: vec![utf8("f"), int64(200)],
            null_counts: second_nulls,
            page_number: 1,
        },
    ]
}

fn tenant_schema() -> CompoundIndexSchema {
    CompoundIndexSchema::new(
        names(&["tenant_id", "status"]),
        vec![DataType::Utf8, DataType::Utf8],
    )
}

fn tenant_batch(tenants: &[&str], status: &[&str], row_ids: &[u64]) -> RecordBatch {
    batch(
        vec![
            Field::new("tenant_id", DataType::Utf8, false),
            Field::new("status", DataType::Utf8, false),
            Field::new("_rowid", DataType::UInt64, false),
        ],
        vec![texts(tenants), texts(status), ids(row_ids)],
    )
}

fn tenant_flat() -> CompoundFlatIndexMetadata {
    CompoundFlatIndexMetadata::new(
        names(&["tenant_id", "status"]),
        vec![DataType::Utf8, DataType::Utf8],
    )
}

fn trained_with(batches: &Vec<RecordBatch>, page_size: u64) -> TrainedIndex {
    train_compound_btree_index(batches, &tenant_flat(), &tenant_schema(), page_size, &None).unwrap()
}

fn trained(batches: &Vec<RecordBatch>) -> TrainedIndex {
    trained_with(batches, 6)
}

fn loaded(t: &TrainedIndex) -> CompoundBTreeIndex {
    CompoundBTreeIndex::load(
        &t.lookup_batch,
        &t.lookup_schema,
        names(&["tenant_id", "status"]),
    )
    .unwrap()
}

fn search(index: &CompoundBTreeIndex, t: &TrainedIndex, q: &CompoundSargableQuery) -> Vec<u64> {
    let pages: Vec<RecordBatch> = index
        .candidate_pages(q)
        .into_iter()
        .map(|p| t.pages[p as usize].clone())
        .collect();
    exact(index.search(q, &pages).unwrap())
}

#[test]
fn test_compound_flat_metadata_schema() {
    let metadata = CompoundFlatIndexMetadata::new(
        vec!["tenant_id".to_string(), "timestamp".to_string()],
        vec![DataType::Utf8, DataType::Int64],
    );

    assert_eq!(metadata.num_columns(), 2);
    assert_eq!(metadata.column_names(), &["tenant_id", "timestamp"]);

    let schema = metadata.schema();
    assert_eq!(schema.fields.len(), 3);
    assert_eq!(schema.fields[0].name, "tenant_id");
    assert_eq!(schema.fields[0].data_type, DataType::Utf8);
    assert_eq!(schema.fields[1].name, "timestamp");
    assert_eq!(schema.fields[1].data_type, DataType::Int64);
    assert_eq!(schema.fields[2].name, "_rowid");
    assert_eq!(schema.fields[2].data_type, DataType::UInt64);
    assert!(schema.fields[0].nullable);
    assert!(!schema.fields[2].nullable);
}

#[test]
fn test_compound_flat_train() {
    let metadata = CompoundFlatIndexMetadata::new(
        vec!["name".to_string(), "value".to_string()],
        vec![DataType::Utf8, DataType::Int64],
    );
    let b = batch(
        vec![
            Field::new("name", DataType::Utf8, true),
            Field::new("value", DataType::Int64, true),
            Field::new(COMPOUND_IDS_COLUMN, DataType::UInt64, false),
        ],
        vec![texts(&["a", "b", "c"]), ints(&[1, 2, 3]), ids(&[100, 200, 300])],
    );

    let trained = metadata.train(&b).unwrap();

    assert_eq!(trained.num_rows(), 3);
    assert_eq!(trained.num_columns(), 3);
    assert_eq!(trained.schema().fields[0].name, "name");
    assert_eq!(trained.schema().fields[1].name, "value");
    assert_eq!(trained.schema().fields[2].name, "_rowid");
}

#[test]
fn train_reorders_columns_and_names_the_missing_one() {
    let metadata = CompoundFlatIndexMetadata::new(
        names(&["value", "name"]),
        vec![DataType::Int64, DataType::Utf8],
    );
    let b = batch(
        vec![
            Field::new("name", DataType::Utf8, true),
            Field::new("_rowid", DataType::UInt64, false),
            Field::new("value", DataType::Int64, true),
        ],
        vec![texts(&["x", "y"]), ids(&[7, 8]), ints(&[1, 2])],
    );
    let page = metadata.train(&b).unwrap();
    assert_eq!(*page.column(0).value(1), int64(2));
    assert_eq!(*page.column(1).value(0), utf8("x"));
    assert_eq!(page.column(2).u64_value(1), 8);
    assert_eq!(metadata.retrieve_data(page).unwrap().num_rows(), 2);

    let no_value = batch(
        vec![
            Field::new("name", DataType::Utf8, true),
            Field::new("_rowid", DataType::UInt64, false),
        ],
        vec![texts(&["x"]), ids(&[7])],
    );
    let e = metadata.train(&no_value).unwrap_err();
    assert!(matches!(&e, Error::Index { .. }));
    assert_eq!(e.message(), "Missing column 'value' in training batch");

    let no_ids = batch(
        vec![
            Field::new("name", DataType::Utf8, true),
            Field::new("value", DataType::Int64, true),
        ],
        vec![texts(&["x"]), ints(&[7])],
    );
    assert_eq!(
        metadata.train(&no_ids).unwrap_err().message(),
        "Missing '_rowid' column in training batch"
    );

    let wrong_type = batch(
        vec![
            Field::new("name", DataType::Utf8, true),
            Field::new("value", DataType::Utf8, true),
            Field::new("_rowid", DataType::UInt64, false),
        ],
        vec![texts(&["x"]), texts(&["y"]), ids(&[7])],
    );
    let e = metadata.train(&wrong_type).unwrap_err();
    assert!(matches!(&e, Error::Arrow { .. }));
    assert_eq!(
        e.message(),
        "Invalid argument error: column types must match schema types, \
         expected Int64 but found Utf8 at column index 0"
    );

    let e = metadata.load_subindex(&wrong_type).unwrap_err();
    assert!(matches!(&e, Error::NotSupported { .. }));
}

#[test]
fn test_analyze_compound_batch() {
    let b = batch(
        vec![
            Field::new("tenant", DataType::Utf8, true),
            Field::new("count", DataType::Int64, true),
        ],
        vec![texts(&["a", "b", "c"]), ints(&[10, 20, 30])],
    );
    let column_names = vec!["tenant".to_string(), "count".to_string()];
    let stats = analyze_compound_batch(&b, &column_names).unwrap();

    assert_eq!(stats.len(), 2);

    assert_eq!(stats[0].min, ScalarValue::Utf8(Some("a".to_string())));
    assert_eq!(stats[0].max, ScalarValue::Utf8(Some("c".to_string())));
    assert_eq!(stats[0].null_count, 0);

    assert_eq!(stats[1].min, ScalarValue::Int64(Some(10)));
    assert_eq!(stats[1].max, ScalarValue::Int64(Some(30)));
    assert_eq!(stats[1].null_count, 0);
}

#[test]
fn test_analyze_compound_batch_with_nulls() {
    let tenant = Column::try_new(
        DataType::Utf8,
        vec![ScalarValue::Utf8(None), utf8("b"), utf8("c")],
    )
    .unwrap();
    let count = Column::try_new(
        DataType::Int64,
        vec![int64(10), ScalarValue::Int64(None), int64(30)],
    )
    .unwrap();
    let b = batch(
        vec![
            Field::new("tenant", DataType::Utf8, true),
            Field::new("count", DataType::Int64, true),
        ],
        vec![tenant, count],
    );
    let column_names = vec!["tenant".to_string(), "count".to_string()];
    let stats = analyze_compound_batch(&b, &column_names).unwrap();

    assert_eq!(stats[0].null_count, 1);
    assert_eq!(stats[1].null_count, 1);
    assert!(stats[0].min.is_null());
    assert_eq!(stats[0].max, utf8("c"));
    assert!(stats[1].min.is_null());
    assert_eq!(stats[1].max, int64(30));
}

#[test]
fn analysis_takes_the_extremes_of_an_unsorted_column() {
    let b = tenant_batch(
        &["acme", "acme", "beta"],
        &["inactive", "zombie", "active"],
        &[0, 1, 2],
    );
    let stats = analyze_compound_batch(&b, &names(&["tenant_id", "status"])).unwrap();
    assert_eq!(stats[1].min, utf8("active"));
    assert_eq!(stats[1].max, utf8("zombie"));
}

#[test]
fn analysis_errors() {
    let empty = RecordBatch::new_empty(Schema::new(vec![Field::new("a", DataType::Utf8, true)]));
    let e = analyze_compound_batch(&empty, &names(&["a"])).unwrap_err();
    assert!(matches!(&e, Error::Internal { .. }));
    assert_eq!(e.message(), "Received an empty batch in compound btree training");

    let b = tenant_batch(&["x"], &["y"], &[1]);
    let e = analyze_compound_batch(&b, &names(&["tenant_id", "nope"])).unwrap_err();
    assert_eq!(e.message(), "Missing column 'nope' in batch");
}

fn sample_stats() -> Vec<CompoundBatchStats> {
    vec![
        CompoundBatchStats {
            column_stats: vec![
                ColumnStats { min: utf8("a"), max: utf8("c"), null_count: 0 },
                ColumnStats { min: int64(1), max: int64(100), null_count: 2 },
            ],
            page_number: 0,
        },
        CompoundBatchStats {
            column_stats: vec![
                ColumnStats { min: utf8("d"), max: utf8("f"), null_count: 1 },
                ColumnStats { min: int64(101), max: int64(200), null_count: 0 },
            ],
            page_number: 1,
        },
    ]
}

#[test]
fn test_compound_stats_as_batch() {
    let column_names = vec!["tenant".to_string(), "count".to_string()];
    let data_types = vec![DataType::Utf8, DataType::Int64];

    let b = compound_stats_as_batch(&sample_stats(), &column_names, &data_types).unwrap();

    assert_eq!(b.num_columns(), 7);
    assert_eq!(b.num_rows(), 2);

    assert_eq!(b.schema().fields[0].name, "min_tenant");
    assert_eq!(b.schema().fields[1].name, "max_tenant");
    assert_eq!(b.schema().fields[2].name, "null_count_tenant");
    assert_eq!(b.schema().fields[3].name, "min_count");
    assert_eq!(b.schema().fields[4].name, "max_count");
    assert_eq!(b.schema().fields[5].name, "null_count_count");
    assert_eq!(b.schema().fields[6].name, "page_idx");

    assert_eq!(*b.column(3).value(1), int64(101));
    assert_eq!(b.column(5).u32_value(0), 2);
    assert_eq!(b.column(6).u32_value(1), 1);
}

#[test]
fn test_compound_stats_empty() {
    let stats: Vec<CompoundBatchStats> = vec![];
    let column_names = vec!["a".to_string(), "b".to_string()];
    let data_types = vec![DataType::Utf8, DataType::Int64];

    let b = compound_stats_as_batch(&stats, &column_names, &data_types).unwrap();

    assert_eq!(b.num_rows(), 0);
    assert_eq!(b.num_columns(), 7);
}

#[test]
fn stats_of_mixed_types_are_refused() {
    let mut stats = sample_stats();
    stats[1].column_stats[1].max = utf8("x");
    let e = compound_stats_as_batch(
        &stats,
        &names(&["tenant", "count"]),
        &vec![DataType::Utf8, DataType::Int64],
    )
    .unwrap_err();
    assert!(matches!(&e, Error::Execution { .. }));
    assert!(e.message().starts_with(
        "Execution error: Inconsistent types in ScalarValue::iter_to_array. Expected Int64, got Utf8"
    ));
}

#[test]
fn lookup_batch_reads_back() {
    let column_names = names(&["tenant", "count"]);
    let b = compound_stats_as_batch(
        &sample_stats(),
        &column_names,
        &vec![DataType::Utf8, DataType::Int64],
    )
    .unwrap();
    let lookup = CompoundBTreeLookup::try_from_serialized(&b, &column_names).unwrap();
    assert_eq!(lookup.num_pages(), 2);
    assert_eq!(lookup.pages_with_nulls(0), vec![1]);
    assert_eq!(lookup.pages_with_nulls(1), vec![0]);
    assert_eq!(lookup.pages_with_nulls(9), Vec::<u32>::new());
    let q = CompoundSargableQuery::prefix_lookup(vec![utf8("f"), int64(200)]);
    assert_eq!(lookup.find_candidate_pages(&q), vec![1]);
    let q = CompoundSargableQuery::prefix_lookup(vec![utf8("f"), int64(201)]);
    assert_eq!(lookup.find_candidate_pages(&q), Vec::<u32>::new());
}

#[test]
fn lookup_batch_errors() {
    let fields = || {
        vec![
            Field::new("min_t", DataType::Utf8, true),
            Field::new("max_t", DataType::Utf8, true),
            Field::new("null_count_t", DataType::UInt32, false),
        ]
    };
    let mut f = fields();
    f.push(Field::new("page_idx", DataType::UInt64, false));
    let b = batch(f, vec![texts(&["a"]), texts(&["b"]), counts(&[0]), ids(&[0])]);
    let e = CompoundBTreeLookup::try_from_serialized(&b, &names(&["t"])).unwrap_err();
    assert_eq!(e.message(), "page_idx column is not UInt32");

    let f = vec![
        Field::new("min_t", DataType::Utf8, true),
        Field::new("max_t", DataType::Utf8, true),
        Field::new("null_count_t", DataType::UInt64, false),
        Field::new("page_idx", DataType::UInt32, false),
    ];
    let b = batch(f, vec![texts(&["a"]), texts(&["b"]), ids(&[0]), counts(&[0])]);
    let e = CompoundBTreeLookup::try_from_serialized(&b, &names(&["t"])).unwrap_err();
    assert!(matches!(&e, Error::Index { .. }));
    assert_eq!(e.message(), "null_count column for t is not UInt32");
}

#[test]
fn test_compound_flat_remap() {
    let metadata = CompoundFlatIndexMetadata::new(
        vec!["name".to_string(), "value".to_string()],
        vec![DataType::Utf8, DataType::Int64],
    );
    let b = RecordBatch::try_new(
        metadata.schema().clone(),
        vec![
            texts(&["a", "b", "c", "d"]),
            ints(&[1, 2, 3, 4]),
            ids(&[100, 200, 300, 400]),
        ],
    )
    .unwrap();

    let mapping: HashMap<u64, Option<u64>> =
        HashMap::from_iter(vec![(100, Some(1000)), (200, None), (300, Some(3000))]);

    let remapped = metadata.remap_subindex(&b, &mapping).unwrap();

    assert_eq!(remapped.num_rows(), 3);

    assert_eq!(remapped.column(2).u64_value(0), 1000);
    assert_eq!(remapped.column(2).u64_value(1), 3000);
    assert_eq!(remapped.column(2).u64_value(2), 400);
    assert_eq!(*remapped.column(0).value(1), utf8("c"));
    assert_eq!(*remapped.column(1).value(2), int64(4));

    let same = metadata.remap_subindex(&b, &HashMap::new()).unwrap();
    assert_eq!(same.num_rows(), 4);
    assert_eq!(same.column(2).u64_value(1), 200);
}

#[test]
fn test_create_compound_row_converter() {
    let data_types = vec![DataType::Utf8, DataType::Int64, DataType::Float64];
    let converter = create_compound_row_converter(&data_types).unwrap();

    let empty = vec![
        Column::try_new(DataType::Utf8, vec![]).unwrap(),
        Column::try_new(DataType::Int64, vec![]).unwrap(),
        Column::try_new(DataType::Float64, vec![]).unwrap(),
    ];
    let empty_rows = converter.convert_columns(&empty).unwrap();
    assert_eq!(empty_rows.len(), 0);
}

#[test]
fn rows_compare_like_their_values() {
    let columns: Vec<Column> = vec![
        Column::from_scalars(vec![
            ScalarValue::Boolean(None),
            ScalarValue::Boolean(Some(false)),
            ScalarValue::Boolean(Some(true)),
        ])
        .unwrap(),
        Column::from_scalars(vec![
            ScalarValue::Int8(Some(-3)),
            ScalarValue::Int8(Some(0)),
            ScalarValue::Int8(Some(5)),
        ])
        .unwrap(),
        Column::from_scalars(vec![
            ScalarValue::UInt16(None),
            ScalarValue::UInt16(Some(0)),
            ScalarValue::UInt16(Some(5)),
        ])
        .unwrap(),
        Column::from_scalars(vec![
            ScalarValue::Float32(Some((-2.5f32).to_bits())),
            ScalarValue::Float32(Some((-0.0f32).to_bits())),
            ScalarValue::Float32(Some((0.0f32).to_bits())),
        ])
        .unwrap(),
        Column::from_scalars(vec![
            ScalarValue::Float64(Some(f64::NEG_INFINITY.to_bits())),
            ScalarValue::Float64(Some((1.5f64).to_bits())),
            ScalarValue::Float64(Some(f64::NAN.to_bits())),
        ])
        .unwrap(),
        Column::from_scalars(vec![
            ScalarValue::Decimal128(Some(-7), 10, 2),
            ScalarValue::Decimal128(Some(0), 10, 2),
            ScalarValue::Decimal128(Some(7), 10, 2),
        ])
        .unwrap(),
        Column::from_scalars(vec![utf8(""), utf8("a"), utf8("ab")]).unwrap(),
        Column::from_scalars(vec![
            ScalarValue::Utf8View(Some("z".to_string())),
            ScalarValue::Utf8View(Some("é".to_string())),
            ScalarValue::Utf8View(Some("日".to_string())),
        ])
        .unwrap(),
        Column::from_scalars(vec![
            ScalarValue::Binary(Some(vec![])),
            ScalarValue::Binary(Some(vec![0, 1])),
            ScalarValue::Binary(Some(vec![1])),
        ])
        .unwrap(),
        Column::from_scalars(vec![
            ScalarValue::FixedSizeBinary(2, None),
            ScalarValue::FixedSizeBinary(2, Some(vec![0, 9])),
            ScalarValue::FixedSizeBinary(2, Some(vec![1, 0])),
        ])
        .unwrap(),
        Column::from_scalars(vec![
            ScalarValue::Date32(Some(-1)),
            ScalarValue::Date32(Some(0)),
            ScalarValue::Date32(Some(1)),
        ])
        .unwrap(),
        Column::from_scalars(vec![
            ScalarValue::Time64Nanosecond(Some(1)),
            ScalarValue::Time64Nanosecond(Some(2)),
            ScalarValue::Time64Nanosecond(Some(3)),
        ])
        .unwrap(),
        Column::from_scalars(vec![
            ScalarValue::TimestampMicrosecond(None, Some("UTC".to_string())),
            ScalarValue::TimestampMicrosecond(Some(-1), Some("UTC".to_string())),
            ScalarValue::TimestampMicrosecond(Some(1), Some("UTC".to_string())),
        ])
        .unwrap(),
        Column::from_scalars(vec![
            ScalarValue::DurationMillisecond(Some(-9)),
            ScalarValue::DurationMillisecond(Some(0)),
            ScalarValue::DurationMillisecond(Some(9)),
        ])
        .unwrap(),
    ];
    for c in columns {
        assert_ascending(c);
    }
}

fn assert_ascending(c: Column) {
    for i in 0..2 {
        assert_eq!(c.value(i).order(c.value(i + 1)), Some(Order::Less));
        assert_eq!(c.value(i + 1).order(c.value(i)), Some(Order::Greater));
    }
    let converter = create_compound_row_converter(&vec![c.data_type().clone()]).unwrap();
    let rows = converter.convert_columns(&vec![c]).unwrap();
    assert_eq!(rows.len(), 3);
    assert!(rows[0] < rows[1]);
    assert!(rows[1] < rows[2]);
}

#[test]
fn rarer_types_compare_like_their_rows() {
    let half = |bits: u16| ScalarValue::Float16(Some(bits));
    assert_ascending(
        Column::from_scalars(vec![half(0xbc00), half(0x8000), half(0)]).unwrap(),
    );
    assert_ascending(
        Column::from_scalars(vec![half(0x3c00), half(0x7c00), half(0x7e00)]).unwrap(),
    );
    let d32 = |n: i32| ScalarValue::Decimal32(Some(n), 9, 2);
    assert_ascending(Column::from_scalars(vec![d32(-7), d32(0), d32(7)]).unwrap());
    let d64 = |n: i64| ScalarValue::Decimal64(Some(n), 18, 4);
    assert_ascending(Column::from_scalars(vec![d64(-7), d64(0), d64(7)]).unwrap());
    let d256 = |high: i128, low: u128| ScalarValue::Decimal256(Some(WideInt { high, low }), 76, 0);
    assert_ascending(
        Column::from_scalars(vec![d256(-1, u128::MAX), d256(0, 3), d256(1, 0)]).unwrap(),
    );
    assert_ascending(
        Column::from_scalars(vec![
            ScalarValue::Decimal256(None, 76, 0),
            d256(-2, u128::MAX),
            d256(-1, 0),
        ])
        .unwrap(),
    );
    let ym = |n: i32| ScalarValue::IntervalYearMonth(Some(n));
    assert_ascending(Column::from_scalars(vec![ym(-1), ym(0), ym(i32::MAX)]).unwrap());
    let dt = |days: i32, milliseconds: i32| {
        ScalarValue::IntervalDayTime(Some(DayTime { days, milliseconds }))
    };
    assert_ascending(
        Column::from_scalars(vec![dt(-1, i32::MAX), dt(0, i32::MIN), dt(0, 1)]).unwrap(),
    );
    let mdn = |months: i32, days: i32, nanoseconds: i64| {
        ScalarValue::IntervalMonthDayNano(Some(MonthDayNano { months, days, nanoseconds }))
    };
    assert_ascending(
        Column::from_scalars(vec![
            mdn(i32::MIN, i32::MIN, i64::MIN),
            mdn(0, -1, i64::MAX),
            mdn(0, 0, i64::MIN),
        ])
        .unwrap(),
    );
    assert_ascending(
        Column::from_scalars(vec![
            mdn(0, 0, 5),
            mdn(1, i32::MIN, i64::MIN),
            mdn(i32::MAX, i32::MAX, i64::MAX),
        ])
        .unwrap(),
    );
    assert_eq!(
        ScalarValue::Decimal32(Some(1), 9, 2).order(&ScalarValue::Decimal32(Some(1), 9, 3)),
        None
    );
    assert_eq!(d32(1).order(&d64(1)), None);
    for t in [
        DataType::Float16,
        DataType::Decimal32(9, 2),
        DataType::Decimal64(18, 4),
        DataType::Decimal256(76, 0),
        DataType::IntervalYearMonth,
        DataType::IntervalDayTime,
        DataType::IntervalMonthDayNano,
    ] {
        assert_eq!(ScalarValue::null_of(&t).data_type(), t);
    }
}

#[test]
fn row_converter_refuses_other_columns() {
    let converter = create_compound_row_converter(&vec![DataType::Utf8, DataType::Int64]).unwrap();
    assert!(converter.convert_columns(&vec![texts(&["a"])]).is_err());
    assert!(converter.convert_columns(&vec![texts(&["a"]), texts(&["b"])]).is_err());
    assert!(converter.convert_columns(&vec![texts(&["a"]), ints(&[1, 2])]).is_err());
    assert_eq!(
        converter.convert_columns(&vec![texts(&["a"]), ints(&[1])]).unwrap().len(),
        1
    );
}

#[test]
fn values_of_different_kinds_do_not_compare() {
    assert_eq!(utf8("a").order(&int64(1)), None);
    assert!(utf8("a") != ScalarValue::LargeUtf8(Some("a".to_string())));
    assert!(ScalarValue::Null != ScalarValue::Utf8(None));
    assert!(ScalarValue::Null == ScalarValue::Null);
    let utc = ScalarValue::TimestampSecond(Some(1), Some("UTC".to_string()));
    let none = ScalarValue::TimestampSecond(Some(1), None);
    assert!(utc == none);
    assert!(utc.data_type() != none.data_type());
    assert_eq!(
        none.data_type(),
        DataType::Timestamp(TimeUnit::Second, None)
    );
    let a = ScalarValue::Decimal128(Some(1), 10, 2);
    let b = ScalarValue::Decimal128(Some(1), 10, 3);
    assert_eq!(a.order(&b), None);
    assert_eq!(ScalarValue::null_of(&DataType::Date64).data_type(), DataType::Date64);
}

#[test]
fn test_compound_btree_lookup_new() {
    let data_types = vec![DataType::Utf8, DataType::Int64];
    let lookup = CompoundBTreeLookup::new(
        two_page_stats(vec![0, 0], vec![1, 2]),
        data_types.clone(),
    );

    assert_eq!(lookup.num_pages(), 2);
    assert_eq!(lookup.data_types(), &data_types);
}

#[test]
fn test_compound_btree_lookup_from_serialized() {
    let column_names = vec!["tenant".to_string(), "count".to_string()];
    let data_types = vec![DataType::Utf8, DataType::Int64];

    let lookup_batch = batch(
        vec![
            Field::new("min_tenant", DataType::Utf8, true),
            Field::new("max_tenant", DataType::Utf8, true),
            Field::new("null_count_tenant", DataType::UInt32, false),
            Field::new("min_count", DataType::Int64, true),
            Field::new("max_count", DataType::Int64, true),
            Field::new("null_count_count", DataType::UInt32, false),
            Field::new("page_idx", DataType::UInt32, false),
        ],
        vec![
            texts(&["a", "d"]),
            texts(&["c", "f"]),
            counts(&[0, 1]),
            ints(&[1, 101]),
            ints(&[100, 200]),
            counts(&[0, 2]),
            counts(&[0, 1]),
        ],
    );

    let lookup = CompoundBTreeLookup::try_from_serialized(&lookup_batch, &column_names).unwrap();

    assert_eq!(lookup.num_pages(), 2);
    assert_eq!(lookup.data_types(), &data_types);
}

#[test]
fn test_compound_btree_lookup_pruning_equality() {
    let lookup = CompoundBTreeLookup::new(
        two_page_stats(vec![0, 0], vec![0, 0]),
        vec![DataType::Utf8, DataType::Int64],
    );

    let query =
        CompoundSargableQuery::prefix_lookup(vec![ScalarValue::Utf8(Some("b".to_string()))]);
    let pages = lookup.find_candidate_pages(&query);
    assert_eq!(pages, vec![0]);

    let query =
        CompoundSargableQuery::prefix_lookup(vec![ScalarValue::Utf8(Some("e".to_string()))]);
    let pages = lookup.find_candidate_pages(&query);
    assert_eq!(pages, vec![1]);

    let query =
        CompoundSargableQuery::prefix_lookup(vec![ScalarValue::Utf8(Some("z".to_string()))]);
    let pages = lookup.find_candidate_pages(&query);
    assert!(pages.is_empty());

    let query =
        CompoundSargableQuery::prefix_lookup(vec![ScalarValue::Utf8(Some("a".to_string()))]);
    let pages = lookup.find_candidate_pages(&query);
    assert_eq!(pages, vec![0]);
}

#[test]
fn test_compound_btree_lookup_pruning_range() {
    let page_stats = vec![
        CompoundPageStats {
            mins: vec![utf8("a"), int64(1)],
            maxs: vec![utf8("a"), int64(100)],
            null_counts: vec![0, 0],
            page_number: 0,
        },
        CompoundPageStats {
            mins: vec![utf8("a"), int64(101)],
            maxs: vec![utf8("a"), int64(200)],
            null_counts: vec![0, 0],
            page_number: 1,
        },
    ];

    let lookup = CompoundBTreeLookup::new(page_stats, vec![DataType::Utf8, DataType::Int64]);

    let query = CompoundSargableQuery::prefix_lookup_with_range(
        vec![ScalarValue::Utf8(Some("a".to_string()))],
        (Bound::Excluded(ScalarValue::Int64(Some(50))), Bound::Unbounded),
    );
    let pages = lookup.find_candidate_pages(&query);
    assert_eq!(pages, vec![0, 1]);

    let query = CompoundSargableQuery::prefix_lookup_with_range(
        vec![ScalarValue::Utf8(Some("a".to_string()))],
        (Bound::Excluded(ScalarValue::Int64(Some(150))), Bound::Unbounded),
    );
    let pages = lookup.find_candidate_pages(&query);
    assert_eq!(pages, vec![1]);

    let query = CompoundSargableQuery::prefix_lookup_with_range(
        vec![ScalarValue::Utf8(Some("a".to_string()))],
        (Bound::Unbounded, Bound::Excluded(ScalarValue::Int64(Some(50)))),
    );
    let pages = lookup.find_candidate_pages(&query);
    assert_eq!(pages, vec![0]);

    let query = CompoundSargableQuery::prefix_lookup_with_range(
        vec![utf8("a")],
        (Bound::Unbounded, Bound::Excluded(int64(101))),
    );
    assert_eq!(lookup.find_candidate_pages(&query), vec![0]);
    let query = CompoundSargableQuery::prefix_lookup_with_range(
        vec![utf8("a")],
        (Bound::Unbounded, Bound::Included(int64(101))),
    );
    assert_eq!(lookup.find_candidate_pages(&query), vec![0, 1]);
    let query = CompoundSargableQuery::prefix_lookup_with_range(
        vec![utf8("a")],
        (Bound::Excluded(int64(100)), Bound::Unbounded),
    );
    assert_eq!(lookup.find_candidate_pages(&query), vec![1]);
    let query = CompoundSargableQuery::prefix_lookup_with_range(
        vec![utf8("a")],
        (Bound::Included(int64(100)), Bound::Unbounded),
    );
    assert_eq!(lookup.find_candidate_pages(&query), vec![0, 1]);
}

#[test]
fn test_compound_btree_lookup_null_handling() {
    let lookup = CompoundBTreeLookup::new(
        two_page_stats(vec![5, 0], vec![0, 0]),
        vec![DataType::Utf8, DataType::Int64],
    );

    let null_pages = lookup.pages_with_nulls(0);
    assert_eq!(null_pages, vec![0]);

    let null_pages = lookup.pages_with_nulls(1);
    assert!(null_pages.is_empty());

    let query = CompoundSargableQuery::prefix_lookup(vec![ScalarValue::Utf8(None)]);
    let pages = lookup.find_candidate_pages(&query);
    assert_eq!(pages, vec![0]);
}

#[test]
fn all_null_pages_are_pruned_for_values() {
    let stats = vec![CompoundPageStats {
        mins: vec![ScalarValue::Utf8(None)],
        maxs: vec![ScalarValue::Utf8(None)],
        null_counts: vec![3],
        page_number: 4,
    }];
    let lookup = CompoundBTreeLookup::new(stats, vec![DataType::Utf8]);
    let q = CompoundSargableQuery::prefix_lookup(vec![utf8("a")]);
    assert!(lookup.find_candidate_pages(&q).is_empty());
    let q = CompoundSargableQuery::prefix_lookup_with_range(
        vec![],
        (Bound::Unbounded, Bound::Unbounded),
    );
    assert!(lookup.find_candidate_pages(&q).is_empty());
    let q = CompoundSargableQuery::prefix_lookup(vec![ScalarValue::Null]);
    assert_eq!(lookup.find_candidate_pages(&q), vec![4]);
    let q = CompoundSargableQuery::FullKeyLookup(CompoundKey::new(vec![1, 2]));
    assert_eq!(lookup.find_candidate_pages(&q), vec![4]);
    let q = CompoundSargableQuery::Range { lower: Bound::Unbounded, upper: Bound::Unbounded };
    assert_eq!(lookup.find_candidate_pages(&q), vec![4]);
}

#[test]
fn test_compound_btree_lookup_empty() {
    let lookup = CompoundBTreeLookup::new(vec![], vec![DataType::Utf8, DataType::Int64]);

    assert_eq!(lookup.num_pages(), 0);

    let query =
        CompoundSargableQuery::prefix_lookup(vec![ScalarValue::Utf8(Some("test".to_string()))]);
    let pages = lookup.find_candidate_pages(&query);
    assert!(pages.is_empty());
}

#[test]
fn test_compound_query_parser_new() {
    let parser = CompoundQueryParser::new(
        "test_index".to_string(),
        vec!["tenant_id".to_string(), "status".to_string(), "timestamp".to_string()],
        vec![DataType::Utf8, DataType::Utf8, DataType::Int64],
    );

    assert_eq!(parser.index_name(), "test_index");
    assert_eq!(parser.columns().len(), 3);
    assert_eq!(parser.data_types().len(), 3);
}

fn two_column_parser() -> CompoundQueryParser {
    CompoundQueryParser::new(
        "test_index".to_string(),
        vec!["tenant_id".to_string(), "status".to_string()],
        vec![DataType::Utf8, DataType::Utf8],
    )
}

#[test]
fn test_compound_query_parser_column_position() {
    let parser = two_column_parser();

    assert!(parser.is_first_column("tenant_id"));
    assert!(!parser.is_first_column("status"));
    assert!(!parser.is_first_column("unknown"));

    assert!(parser.contains_column("tenant_id"));
    assert!(parser.contains_column("status"));
    assert!(!parser.contains_column("unknown"));

    assert_eq!(parser.column_position("tenant_id"), Some(0));
    assert_eq!(parser.column_position("status"), Some(1));
    assert_eq!(parser.column_position("unknown"), None);
}

#[test]
fn test_compound_query_parser_visit_comparison_first_column() {
    let parser = two_column_parser();

    let result = parser.visit_comparison(
        "tenant_id",
        &ScalarValue::Utf8(Some("acme".to_string())),
        &Operator::Eq,
    );
    assert!(result.is_some());

    let result = parser.visit_comparison(
        "tenant_id",
        &ScalarValue::Utf8(Some("acme".to_string())),
        &Operator::Gt,
    );
    assert!(result.is_some());
}

#[test]
fn test_compound_query_parser_visit_comparison_non_first_column() {
    let parser = two_column_parser();

    let result = parser.visit_comparison(
        "status",
        &ScalarValue::Utf8(Some("active".to_string())),
        &Operator::Eq,
    );
    assert!(result.is_none());
}

#[test]
fn test_compound_query_parser_visit_is_null() {
    let parser = two_column_parser();

    let result = parser.visit_is_null("tenant_id");
    assert!(result.is_some());

    let result = parser.visit_is_null("status");
    assert!(result.is_none());
}

#[test]
fn parser_builds_the_query_it_says() {
    let parser = two_column_parser();
    let e = parser.visit_comparison("tenant_id", &utf8("m"), &Operator::LtEq).unwrap();
    assert_eq!(e.column, "tenant_id");
    assert_eq!(e.index_name, "test_index");
    assert!(matches!(
        &e.query,
        CompoundSargableQuery::PrefixLookup {
            prefix,
            range: Some((Bound::Unbounded, Bound::Included(v))),
        } if prefix.is_empty() && *v == utf8("m")
    ));
    assert!(parser.visit_comparison("tenant_id", &utf8("m"), &Operator::Other).is_none());
    assert!(parser.visit_in_list("tenant_id", &vec![utf8("m")]).is_none());
    assert!(parser.visit_scalar_function("tenant_id", &DataType::Utf8).is_none());
    let e = parser.visit_is_bool("tenant_id", true).unwrap();
    assert!(matches!(
        &e.query,
        CompoundSargableQuery::PrefixLookup { prefix, range: None }
            if prefix.len() == 1 && prefix[0] == ScalarValue::Boolean(Some(true))
    ));
    let e = parser
        .visit_between("tenant_id", &Bound::Included(utf8("a")), &Bound::Excluded(utf8("b")))
        .unwrap();
    assert!(matches!(
        &e.query,
        CompoundSargableQuery::PrefixLookup {
            range: Some((Bound::Included(_), Bound::Excluded(_))),
            ..
        }
    ));
    assert!(parser.visit_between("status", &Bound::Unbounded, &Bound::Unbounded).is_none());
}

#[test]
fn test_compound_index_search_cartesian_product() {
    let page = tenant_batch(
        &["acme", "acme", "acme", "beta", "beta", "gamma"],
        &["active", "active", "inactive", "active", "inactive", "active"],
        &[0, 1, 2, 3, 4, 5],
    );
    let t = trained(&vec![page]);
    let index = loaded(&t);
    let look = |prefix: Vec<ScalarValue>| {
        search(&index, &t, &CompoundSargableQuery::PrefixLookup { prefix, range: None })
    };
    assert_eq!(look(vec![utf8("acme"), utf8("active")]).len(), 2);
    assert_eq!(look(vec![utf8("acme"), utf8("inactive")]).len(), 1);
    assert_eq!(look(vec![utf8("beta"), utf8("active")]).len(), 1);
    assert_eq!(look(vec![utf8("beta"), utf8("inactive")]).len(), 1);
    assert_eq!(look(vec![utf8("acme")]).len(), 3);
    assert_eq!(look(vec![utf8("acme"), utf8("inactive")]), vec![2]);
    assert_eq!(look(vec![utf8("gamma")]), vec![5]);
}

#[test]
fn candidates_find_what_all_pages_hold() {
    let pages = vec![
        tenant_batch(&["a", "a", "b"], &["x", "z", "q"], &[1, 2, 3]),
        tenant_batch(&["b", "b", "c"], &["r", "s", "a"], &[4, 5, 6]),
        tenant_batch(&["c", "d", "d"], &["b", "y", "z"], &[7, 8, 9]),
    ];
    let t = trained_with(&pages, 3);
    let index = loaded(&t);
    assert_eq!(index.num_pages(), 3);
    assert_eq!(index.batch_size(), 3);
    for first in ["a", "b", "c", "d", "e"] {
        for second in ["a", "b", "q", "r", "s", "x", "y", "z"] {
            let q = CompoundSargableQuery::prefix_lookup(vec![utf8(first), utf8(second)]);
            let all = exact(index.search(&q, &t.pages).unwrap());
            assert_eq!(search(&index, &t, &q), all);
        }
        let q = CompoundSargableQuery::prefix_lookup_with_range(
            vec![utf8(first)],
            (Bound::Excluded(utf8("q")), Bound::Included(utf8("y"))),
        );
        let all = exact(index.search(&q, &t.pages).unwrap());
        assert_eq!(search(&index, &t, &q), all);
    }
}

#[test]
fn full_keys_and_key_ranges() {
    let t = trained(&vec![tenant_batch(
        &["a", "b", "b", "b", "c"],
        &["x", "x", "y", "y", "x"],
        &[10, 11, 12, 13, 14],
    )]);
    let index = loaded(&t);
    let converter = create_compound_row_converter(&vec![DataType::Utf8, DataType::Utf8]).unwrap();
    let key = |a: &str, b: &str| {
        let rows = converter.convert_columns(&vec![texts(&[a]), texts(&[b])]).unwrap();
        CompoundKey::new(rows.into_iter().next().unwrap())
    };
    let full = |a: &str, b: &str| {
        search(&index, &t, &CompoundSargableQuery::FullKeyLookup(key(a, b)))
    };
    assert_eq!(full("b", "y"), vec![12, 13]);
    assert_eq!(full("c", "x"), vec![14]);
    assert_eq!(full("c", "y"), Vec::<u64>::new());
    let range = |lower, upper| {
        search(&index, &t, &CompoundSargableQuery::Range { lower, upper })
    };
    assert_eq!(
        range(Bound::Included(key("b", "x")), Bound::Excluded(key("c", "x"))),
        vec![11, 12, 13]
    );
    assert_eq!(
        range(Bound::Excluded(key("b", "x")), Bound::Included(key("c", "x"))),
        vec![12, 13, 14]
    );
    assert_eq!(range(Bound::Unbounded, Bound::Included(key("a", "x"))), vec![10]);
    assert_eq!(range(Bound::Unbounded, Bound::Unbounded), vec![10, 11, 12, 13, 14]);
}

#[test]
fn a_scan_stops_at_the_first_greater_row() {
    let t = trained(&vec![tenant_batch(&["a", "c", "a"], &["x", "x", "x"], &[1, 2, 3])]);
    let index = loaded(&t);
    let converter = create_compound_row_converter(&vec![DataType::Utf8, DataType::Utf8]).unwrap();
    let rows = converter.convert_columns(&vec![texts(&["a"]), texts(&["x"])]).unwrap();
    let key = CompoundKey::new(rows.into_iter().next().unwrap());
    assert_eq!(addrs(&index.search_full_key(&t.pages[0], &key).unwrap()), vec![1]);
}

#[test]
fn search_errors() {
    let t = trained(&vec![tenant_batch(&["a"], &["x"], &[1])]);
    let index = loaded(&t);
    let no_ids = batch(vec![Field::new("tenant_id", DataType::Utf8, true)], vec![texts(&["a"])]);
    let q = CompoundSargableQuery::prefix_lookup(vec![utf8("a")]);
    let e = index.search_batch(&no_ids, &q).unwrap_err();
    assert_eq!(e.message(), "Missing _rowid column in page");

    let no_status = batch(
        vec![
            Field::new("tenant_id", DataType::Utf8, true),
            Field::new("_rowid", DataType::UInt64, false),
        ],
        vec![texts(&["a"]), ids(&[5])],
    );
    let q = CompoundSargableQuery::prefix_lookup(vec![utf8("a"), utf8("x")]);
    let e = index.search_batch(&no_status, &q).unwrap_err();
    assert!(matches!(&e, Error::Index { .. }));
    assert_eq!(e.message(), "Missing column status in page");
    let q = CompoundSargableQuery::prefix_lookup(vec![utf8("b"), utf8("x")]);
    assert_eq!(addrs(&index.search_batch(&no_status, &q).unwrap()), Vec::<u64>::new());
    let q = CompoundSargableQuery::FullKeyLookup(CompoundKey::new(vec![]));
    let e = index.search_batch(&no_status, &q).unwrap_err();
    assert_eq!(e.message(), "Missing value columns in page");
    let e = index
        .matches_range(&no_status, 0, 1, &Bound::Unbounded, &Bound::Unbounded)
        .unwrap_err();
    assert_eq!(e.message(), "Missing column status in page");

    let wrong_type = batch(
        vec![
            Field::new("tenant_id", DataType::Int64, true),
            Field::new("status", DataType::Utf8, true),
            Field::new("_rowid", DataType::UInt64, false),
        ],
        vec![ints(&[1]), texts(&["a"]), ids(&[5])],
    );
    let q = CompoundSargableQuery::FullKeyLookup(CompoundKey::new(vec![]));
    let e = index.search_batch(&wrong_type, &q).unwrap_err();
    assert!(e.message().starts_with("Failed to convert page to rows: "));
}

#[test]
fn nulls_match_no_range_and_null_matches_nulls() {
    let tenant = Column::try_new(
        DataType::Utf8,
        vec![ScalarValue::Utf8(None), utf8("a")],
    )
    .unwrap();
    let page = batch(
        vec![
            Field::new("tenant_id", DataType::Utf8, true),
            Field::new("status", DataType::Utf8, true),
            Field::new("_rowid", DataType::UInt64, false),
        ],
        vec![tenant, texts(&["x", "y"]), ids(&[1, 2])],
    );
    let t = trained(&vec![page]);
    let index = loaded(&t);
    let q = CompoundSargableQuery::prefix_lookup_with_range(
        vec![],
        (Bound::Unbounded, Bound::Unbounded),
    );
    assert_eq!(search(&index, &t, &q), vec![2]);
    let q = CompoundSargableQuery::prefix_lookup(vec![ScalarValue::Utf8(None)]);
    assert_eq!(search(&index, &t, &q), vec![1]);
}

#[test]
fn results_are_joined() {
    let batches = vec![tenant_batch(&["a"], &["x"], &[1]), tenant_batch(&["a"], &["y"], &[9])];
    let t = trained_with(&batches, 1);
    assert_eq!(t.pages.len(), 2);
    let index = loaded(&t);
    let q = CompoundSargableQuery::prefix_lookup(vec![utf8("a")]);
    let found: Vec<RowAddrTreeMap> =
        t.pages.iter().map(|p| index.search_batch(p, &q).unwrap()).collect();
    assert_eq!(addrs(&CompoundBTreeIndex::join_results(found)), vec![1, 9]);
}

#[test]
fn fragments_of_pages() {
    let row = |fragment: u64, offset: u64| (fragment << 32) | offset;
    let t = trained(&vec![
        tenant_batch(&["a", "b"], &["x", "x"], &[row(3, 1), row(0, 7)]),
        tenant_batch(&["c"], &["x"], &[row(3, 2)]),
    ]);
    let frags = CompoundBTreeIndex::calculate_included_frags(&t.pages).unwrap();
    assert_eq!(frags.iter().collect::<Vec<u32>>(), vec![0, 3]);
    let no_ids = batch(vec![Field::new("a", DataType::Utf8, true)], vec![texts(&["a"])]);
    let e = CompoundBTreeIndex::calculate_included_frags(&vec![no_ids]).unwrap_err();
    assert_eq!(e.message(), "Missing _rowid column");
}

#[test]
fn remapped_pages_are_still_found() {
    let t = trained(&vec![tenant_batch(&["a", "b", "c"], &["z", "m", "a"], &[1, 2, 3])]);
    let index = loaded(&t);
    let mapping: HashMap<u64, Option<u64>> = HashMap::from_iter(vec![(1, None), (2, Some(20))]);
    let pages = index.remap(&t.pages, &mapping).unwrap();
    let q = CompoundSargableQuery::prefix_lookup(vec![utf8("b"), utf8("m")]);
    assert_eq!(index.candidate_pages(&q), vec![0]);
    assert_eq!(exact(index.search(&q, &pages).unwrap()), vec![20]);
    let q = CompoundSargableQuery::prefix_lookup(vec![utf8("a")]);
    assert_eq!(exact(index.search(&q, &pages).unwrap()), Vec::<u64>::new());
    assert!(index.can_remap());
    assert!(matches!(index.update().unwrap_err(), Error::NotSupported { .. }));
    assert!(matches!(index.as_vector_index().unwrap_err(), Error::NotSupported { .. }));
}

#[test]
fn remapped_indices_answer_with_new_ids() {
    let rows = vec![tenant_batch(
        &["a", "a", "b", "b", "b", "c", "d"],
        &["x", "y", "x", "y", "y", "x", "x"],
        &[10, 11, 12, 13, 14, 15, 16],
    )];
    let converter = create_compound_row_converter(&vec![DataType::Utf8, DataType::Utf8]).unwrap();
    let key = |a: &str, b: &str| {
        let rows = converter.convert_columns(&vec![texts(&[a]), texts(&[b])]).unwrap();
        CompoundKey::new(rows.into_iter().next().unwrap())
    };
    let moved = |id: u64| if id == 12 || id == 13 { id + 100 } else { id };
    let moves: HashMap<u64, Option<u64>> =
        HashMap::from_iter(vec![(12, Some(112)), (13, Some(113)), (99, None)]);
    let queries = || {
        vec![
            CompoundSargableQuery::prefix_lookup(vec![utf8("b")]),
            CompoundSargableQuery::prefix_lookup(vec![utf8("b"), utf8("y")]),
            CompoundSargableQuery::prefix_lookup(vec![utf8("z")]),
            CompoundSargableQuery::FullKeyLookup(key("b", "y")),
            CompoundSargableQuery::FullKeyLookup(key("b", "z")),
            CompoundSargableQuery::Range {
                lower: Bound::Excluded(key("a", "x")),
                upper: Bound::Included(key("c", "x")),
            },
            CompoundSargableQuery::Range { lower: Bound::Unbounded, upper: Bound::Unbounded },
        ]
    };
    let expected: Vec<Vec<u64>> = vec![
        vec![12, 13, 14],
        vec![13, 14],
        vec![],
        vec![13, 14],
        vec![],
        vec![11, 12, 13, 14, 15],
        vec![10, 11, 12, 13, 14, 15, 16],
    ];
    for size in [1, 2, 3, 7, 50] {
        let mut t = trained_with(&rows, size);
        let index = loaded(&t);
        for (q, ids) in queries().iter().zip(&expected) {
            assert_eq!(&search(&index, &t, q), ids);
        }
        let lens: Vec<usize> = t.pages.iter().map(|p| p.num_rows()).collect();
        t.pages = index.remap(&t.pages, &moves).unwrap();
        assert_eq!(t.pages.iter().map(|p| p.num_rows()).collect::<Vec<_>>(), lens);
        for (q, ids) in queries().iter().zip(&expected) {
            let mut new_ids: Vec<u64> = ids.iter().map(|id| moved(*id)).collect();
            new_ids.sort();
            assert_eq!(search(&loaded(&t), &t, q), new_ids);
        }
    }
}

#[test]
fn page_size_is_recorded_and_read() {
    let t = trained(&vec![tenant_batch(&["a"], &["x"], &[1])]);
    assert_eq!(t.page_data_name, "compound_page_data.lance");
    assert_eq!(t.page_lookup_name, "compound_page_lookup.lance");
    assert_eq!(t.lookup_schema.metadata_value("batch_size").unwrap(), "6");
    let index = loaded(&t);
    assert_eq!(index.page_count(0), 0);
    assert_eq!(index.page_count(6), 1);
    assert_eq!(index.page_count(7), 2);
    let mut schema = Schema::new(vec![]);
    let columns = || names(&["tenant_id", "status"]);
    let i = CompoundBTreeIndex::load(&t.lookup_batch, &schema, columns()).unwrap();
    assert_eq!(i.batch_size(), DEFAULT_COMPOUND_BATCH_SIZE);
    schema.insert_metadata("batch_size".to_string(), "many".to_string());
    let i = CompoundBTreeIndex::load(&t.lookup_batch, &schema, columns()).unwrap();
    assert_eq!(i.batch_size(), 4096);
    schema.insert_metadata("batch_size".to_string(), "+18446744073709551615".to_string());
    let i = CompoundBTreeIndex::load(&t.lookup_batch, &schema, columns()).unwrap();
    assert_eq!(i.batch_size(), u64::MAX);
    schema.insert_metadata("batch_size".to_string(), "18446744073709551616".to_string());
    let i = CompoundBTreeIndex::load(&t.lookup_batch, &schema, columns()).unwrap();
    assert_eq!(i.batch_size(), 4096);
}

#[test]
fn parts_have_their_own_files() {
    assert_eq!(
        index_file_names(&None),
        ("compound_page_data.lance".to_string(), "compound_page_lookup.lance".to_string())
    );
    assert_eq!(index_file_names(&Some(vec![])).0, "compound_page_data.lance");
    assert_eq!(
        index_file_names(&Some(vec![2, 5])),
        (
            "part_8589934592_compound_page_data.lance".to_string(),
            "part_8589934592_compound_page_lookup.lance".to_string()
        )
    );
}

#[test]
fn training_stops_at_the_first_bad_page() {
    let bad = batch(vec![Field::new("a", DataType::Utf8, true)], vec![texts(&["a"])]);
    let train = |batches: Vec<RecordBatch>| {
        train_compound_btree_index(&batches, &tenant_flat(), &tenant_schema(), 10, &None)
    };
    let e = train(vec![bad]).unwrap_err();
    assert!(matches!(&e, Error::Internal { .. }));
    assert_eq!(e.message(), "Missing column 'tenant_id' in batch");
    let no_ids = batch(
        vec![
            Field::new("tenant_id", DataType::Utf8, true),
            Field::new("status", DataType::Utf8, true),
        ],
        vec![texts(&["a"]), texts(&["x"])],
    );
    let e = train(vec![no_ids]).unwrap_err();
    assert_eq!(e.message(), "Missing '_rowid' column in training batch");
    let none = train(vec![]).unwrap();
    assert_eq!(none.pages.len(), 0);
    assert_eq!(none.lookup_batch.num_rows(), 0);
    assert_eq!(none.lookup_batch.num_columns(), 7);
    assert_eq!(none.lookup_schema.metadata_value("batch_size").unwrap(), "10");
}

fn text_at(page: &RecordBatch, column: usize, row: usize) -> String {
    match page.column(column).value(row) {
        ScalarValue::Utf8(Some(s)) => s.clone(),
        other => panic!("{other:?}"),
    }
}

#[test]
fn rows_are_cut_into_pages_of_the_page_size() {
    let one = vec![tenant_batch(&["a", "b"], &["x", "y"], &[1, 2])];
    let t = trained_with(&one, 1);
    assert_eq!(t.pages.iter().map(|p| p.num_rows()).collect::<Vec<_>>(), vec![1, 1]);
    assert_eq!(text_at(&t.pages[1], 0, 0), "b");
    assert_eq!(loaded(&t).num_pages(), 2);

    let uneven = vec![
        tenant_batch(&["a"], &["1"], &[10]),
        tenant_batch(&[], &[], &[]),
        tenant_batch(&["b", "c", "d", "e"], &["2", "3", "4", "5"], &[11, 12, 13, 14]),
        tenant_batch(&["f", "g"], &["6", "7"], &[15, 16]),
    ];
    let t = trained_with(&uneven, 3);
    assert_eq!(t.pages.iter().map(|p| p.num_rows()).collect::<Vec<_>>(), vec![3, 3, 1]);
    let all: Vec<String> = t
        .pages
        .iter()
        .flat_map(|p| (0..p.num_rows()).map(move |i| text_at(p, 0, i)))
        .collect();
    assert_eq!(all, names(&["a", "b", "c", "d", "e", "f", "g"]));
    let row_ids: Vec<u64> = t
        .pages
        .iter()
        .flat_map(|p| (0..p.num_rows()).map(move |i| p.column(2).u64_value(i)))
        .collect();
    assert_eq!(row_ids, vec![10, 11, 12, 13, 14, 15, 16]);
    let index = loaded(&t);
    assert_eq!(index.num_pages(), 3);
    assert_eq!(index.page_count(7), 3);
    for (size, pages) in [(1, 7), (2, 4), (7, 1), (100, 1)] {
        let other = trained_with(&uneven, size);
        assert_eq!(other.pages.len(), pages);
        for tenant in ["a", "d", "g", "z"] {
            let q = CompoundSargableQuery::prefix_lookup(vec![utf8(tenant)]);
            assert_eq!(search(&loaded(&other), &other, &q), search(&index, &t, &q));
        }
    }
}

#[test]
fn lookup_rows_describe_their_pages() {
    let t = trained_with(
        &vec![tenant_batch(&["a", "b", "b"], &["z", "q", "r"], &[1, 2, 3])],
        2,
    );
    let b = &t.lookup_batch;
    assert_eq!(b.num_rows(), 2);
    assert_eq!(b.num_columns(), 7);
    assert_eq!((0..2).map(|k| b.column(6).u32_value(k)).collect::<Vec<_>>(), vec![0, 1]);
    assert_eq!((text_at(b, 0, 0), text_at(b, 1, 0)), ("a".to_string(), "b".to_string()));
    assert_eq!((text_at(b, 3, 0), text_at(b, 4, 0)), ("q".to_string(), "z".to_string()));
    assert_eq!((text_at(b, 3, 1), text_at(b, 4, 1)), ("r".to_string(), "r".to_string()));
    assert_eq!(b.column(2).u32_value(0), 0);
}

#[test]
fn batches_join_and_slice() {
    let a = tenant_batch(&["a", "b"], &["x", "y"], &[1, 2]);
    let b = tenant_batch(&["c"], &["z"], &[3]);
    let joined = RecordBatch::concat(a.schema().clone(), &vec![a.clone(), b]);
    assert_eq!(joined.num_rows(), 3);
    assert_eq!(text_at(&joined, 1, 2), "z");
    let middle = joined.slice(1, 2);
    assert_eq!(middle.num_rows(), 1);
    assert_eq!(text_at(&middle, 0, 0), "b");
    assert_eq!(joined.slice(3, 3).num_rows(), 0);
    assert_eq!(cut_pages(&vec![joined], 2).len(), 2);
    assert_eq!(cut_pages(&vec![], 2).len(), 0);
}

#[test]
fn is_null_finds_the_null_rows() {
    let tenant = Column::try_new(
        DataType::Utf8,
        vec![ScalarValue::Utf8(None), ScalarValue::Utf8(None), utf8("a"), utf8("b")],
    )
    .unwrap();
    let page = batch(
        vec![
            Field::new("tenant_id", DataType::Utf8, true),
            Field::new("status", DataType::Utf8, true),
            Field::new("_rowid", DataType::UInt64, false),
        ],
        vec![tenant, texts(&["x", "y", "z", "z"]), ids(&[5, 6, 7, 8])],
    );
    for size in [1, 2, 6] {
        let t = trained_with(&vec![page.clone()], size);
        let index = loaded(&t);
        let typed = two_column_parser().visit_is_null("tenant_id").unwrap();
        assert_eq!(search(&index, &t, &typed.query), vec![5, 6]);
        let details = created_index(index.columns()).index_details;
        let parser = CompoundBTreeIndexPlugin
            .new_query_parser("i".to_string(), Some(details))
            .unwrap();
        let e = parser.visit_is_null("tenant_id").unwrap();
        assert_eq!(search(&index, &t, &e.query), vec![5, 6]);
        assert!(parser.visit_is_null("status").is_none());
    }
    let t = trained_with(&vec![page.clone()], 2);
    let q = two_column_parser().visit_is_null("tenant_id").unwrap().query;
    assert_eq!(loaded(&t).candidate_pages(&q), vec![0]);
    let full = trained(&vec![tenant_batch(&["a"], &["x"], &[1])]);
    assert_eq!(search(&loaded(&full), &full, &q), Vec::<u64>::new());
    assert!(ScalarValue::Utf8(None).answers(&ScalarValue::Null));
    assert!(!utf8("a").answers(&ScalarValue::Null));
    assert!(utf8("a").answers(&utf8("a")));
    assert!(!ScalarValue::Utf8(None).answers(&utf8("a")));
}

#[test]
fn bounds_may_differ_in_type_parameters() {
    let stats = |low: ScalarValue, high: ScalarValue, page_number| CompoundBatchStats {
        column_stats: vec![ColumnStats { min: low, max: high, null_count: 0 }],
        page_number,
    };
    let at = |t: i64, zone: Option<&str>| {
        ScalarValue::TimestampSecond(Some(t), zone.map(|z| z.to_string()))
    };
    let b = compound_stats_as_batch(
        &vec![stats(at(1, Some("UTC")), at(2, None), 0), stats(at(3, None), at(4, None), 1)],
        &names(&["t"]),
        &vec![DataType::Timestamp(TimeUnit::Second, None)],
    )
    .unwrap();
    let utc = DataType::Timestamp(TimeUnit::Second, Some("UTC".to_string()));
    assert_eq!(*b.column(0).data_type(), utc);
    assert_eq!(b.column(0).value(1).data_type(), utc);
    assert!(*b.column(0).value(1) == at(3, None));

    let d = |n: i128, p: u8, s: i8| ScalarValue::Decimal128(Some(n), p, s);
    let b = compound_stats_as_batch(
        &vec![stats(d(1, 10, 2), d(2, 10, 2), 0), stats(d(3, 5, 0), d(4, 10, 2), 1)],
        &names(&["d"]),
        &vec![DataType::Decimal128(10, 2)],
    )
    .unwrap();
    assert!(*b.column(0).value(1) == d(3, 10, 2));
    let e = compound_stats_as_batch(
        &vec![stats(d(1, 0, 0), d(1, 0, 0), 0)],
        &names(&["d"]),
        &vec![DataType::Decimal128(0, 0)],
    )
    .unwrap_err();
    assert!(matches!(&e, Error::Arrow { .. }));
    assert_eq!(
        e.message(),
        "Invalid argument error: precision cannot be 0, has to be between [1, 38]"
    );
    let e = Column::from_scalars(vec![d(1, 10, 2), int64(1)]).unwrap_err();
    assert!(matches!(&e, Error::IO { .. }));

    let w = |n: i32, b: &[u8]| ScalarValue::FixedSizeBinary(n, Some(b.to_vec()));
    let c = Column::from_scalars(vec![w(2, &[1, 2]), w(3, &[3, 4])]).unwrap();
    assert_eq!(c.value(1).data_type(), DataType::FixedSizeBinary(2));
    let e = Column::from_scalars(vec![w(2, &[1, 2]), w(2, &[3])]).unwrap_err();
    assert!(e.message().contains("Nested array size mismatch: one is 2, and the other is 1"));
}

#[test]
fn only_impossible_values_are_not_encoded() {
    let decimals = |p: u8, s: i8| {
        let converter =
            create_compound_row_converter(&vec![DataType::Decimal128(p, s)]).unwrap();
        let column = Column::try_new(
            DataType::Decimal128(p, s),
            vec![ScalarValue::Decimal128(Some(7), p, s)],
        )
        .unwrap();
        converter.convert_columns(&vec![column])
    };
    for (p, s) in [(1, 0), (38, 38), (10, -3), (1, 1)] {
        assert_eq!(decimals(p, s).unwrap().len(), 1);
    }
    for (p, s) in [(0, 0), (39, 0), (5, 6)] {
        assert!(decimals(p, s).is_err());
    }
    let encodes = |v: ScalarValue| {
        let t = v.data_type();
        let converter = create_compound_row_converter(&vec![t.clone()]).unwrap();
        converter.convert_columns(&vec![Column::try_new(t, vec![v]).unwrap()]).is_ok()
    };
    assert!(encodes(ScalarValue::Decimal32(Some(7), 9, 9)));
    assert!(!encodes(ScalarValue::Decimal32(Some(7), 10, 0)));
    assert!(encodes(ScalarValue::Decimal64(Some(7), 18, -1)));
    assert!(!encodes(ScalarValue::Decimal64(Some(7), 19, 0)));
    assert!(encodes(ScalarValue::Decimal256(Some(WideInt { high: 0, low: 7 }), 76, 76)));
    assert!(!encodes(ScalarValue::Decimal256(Some(WideInt { high: 0, low: 7 }), 77, 0)));
    let fixed = |n: i32, values: Vec<ScalarValue>| {
        let converter =
            create_compound_row_converter(&vec![DataType::FixedSizeBinary(n)]).unwrap();
        converter
            .convert_columns(&vec![Column::try_new(DataType::FixedSizeBinary(n), values).unwrap()])
    };
    let bytes = |n: i32, b: &[u8]| ScalarValue::FixedSizeBinary(n, Some(b.to_vec()));
    let two = vec![bytes(2, &[1, 2]), ScalarValue::FixedSizeBinary(2, None)];
    assert_eq!(fixed(2, two).unwrap().len(), 2);
    assert_eq!(fixed(0, vec![bytes(0, &[])]).unwrap().len(), 1);
    assert!(fixed(2, vec![bytes(2, &[1])]).is_err());
    assert!(fixed(-1, vec![]).is_err());
}

#[test]
fn lookups_with_nulls_in_counts_read_as_zero() {
    let fields = vec![
        Field::new("min_a", DataType::Int64, true),
        Field::new("max_a", DataType::Int64, true),
        Field::new("null_count_a", DataType::UInt32, true),
        Field::new("page_idx", DataType::UInt32, true),
    ];
    let nulls =
        || Column::try_new(DataType::UInt32, vec![ScalarValue::UInt32(None)]).unwrap();
    let b = batch(fields, vec![ints(&[1]), ints(&[2]), nulls(), nulls()]);
    let lookup = CompoundBTreeLookup::try_from_serialized(&b, &names(&["a"])).unwrap();
    assert_eq!(lookup.num_pages(), 1);
    assert_eq!(lookup.pages_with_nulls(0), Vec::<u32>::new());
    let q = CompoundSargableQuery::prefix_lookup(vec![int64(1)]);
    assert_eq!(lookup.find_candidate_pages(&q), vec![0]);
}

#[test]
fn a_key_splits_a_page() {
    let t = trained(&vec![tenant_batch(
        &["a", "b", "b", "c"],
        &["x", "x", "x", "y"],
        &[1, 2, 3, 4],
    )]);
    let index = loaded(&t);
    let converter = create_compound_row_converter(&vec![DataType::Utf8, DataType::Utf8]).unwrap();
    let key = || {
        let rows = converter.convert_columns(&vec![texts(&["b"]), texts(&["x"])]).unwrap();
        CompoundKey::new(rows.into_iter().next().unwrap())
    };
    let range = |lower, upper| addrs(&index.search_range(&t.pages[0], &lower, &upper).unwrap());
    assert_eq!(range(Bound::Included(key()), Bound::Included(key())), vec![2, 3]);
    assert_eq!(addrs(&index.search_full_key(&t.pages[0], &key()).unwrap()), vec![2, 3]);
    assert_eq!(range(Bound::Unbounded, Bound::Excluded(key())), vec![1]);
    assert_eq!(range(Bound::Included(key()), Bound::Unbounded), vec![2, 3, 4]);
    assert_eq!(range(Bound::Unbounded, Bound::Unbounded), vec![1, 2, 3, 4]);
}

#[test]
fn batches_are_checked() {
    let e = RecordBatch::try_new(Schema::new(vec![]), vec![ints(&[1])]).unwrap_err();
    assert_eq!(
        e.message(),
        "Invalid argument error: number of columns(1) must match number of fields(0) in schema"
    );
    let e = RecordBatch::try_new(Schema::new(vec![]), vec![]).unwrap_err();
    assert_eq!(
        e.message(),
        "Invalid argument error: must either specify a row count or at least one column"
    );
    let two = || {
        Schema::new(vec![
            Field::new("a", DataType::Int64, true),
            Field::new("b", DataType::Int64, false),
        ])
    };
    let e = RecordBatch::try_new(two(), vec![ints(&[1]), ints(&[1, 2])]).unwrap_err();
    assert_eq!(
        e.message(),
        "Invalid argument error: all columns in a record batch must have the same length"
    );
    let null = Column::try_new(DataType::Int64, vec![ScalarValue::Int64(None)]).unwrap();
    let e = RecordBatch::try_new(two(), vec![ints(&[1]), null]).unwrap_err();
    assert_eq!(
        e.message(),
        "Invalid argument error: Column 'b' is declared as non-nullable but contains null values"
    );
    assert!(Column::try_new(DataType::Int64, vec![utf8("a")]).is_err());
    assert_eq!(
        Column::from_scalars(vec![]).unwrap_err().message(),
        "Execution error: Empty iterator passed to ScalarValue::iter_to_array"
    );
    assert!(Column::from_scalars(vec![utf8("a"), int64(1)]).is_err());
}

#[test]
fn cache_keys_and_pages() {
    assert_eq!(CompoundBTreePageKey { page_number: 42 }.key(), "compound-page-42");
    let page = CachedCompoundPage::new(tenant_batch(&["a"], &["x"], &[1]));
    assert_eq!(page.batch().num_rows(), 1);
    assert_eq!(page.approximate_size(), 24);
    assert_eq!(page.into_inner().num_columns(), 3);
}

#[test]
fn plugin_requests() {
    let plugin = CompoundBTreeIndexPlugin;
    assert_eq!(plugin.name(), "CompoundBTree");
    assert_eq!(plugin.version(), 1);
    assert!(plugin.provides_exact_answer());
    let e = plugin
        .new_training_request("", Ok(CompoundBTreeParameters::default()), true)
        .unwrap_err();
    assert!(matches!(&e, Error::InvalidInput { .. }));
    assert_eq!(e.message(), "A compound btree index cannot include nested fields.");
    let e = plugin.new_training_request("{", Err("eof".to_string()), false).unwrap_err();
    assert_eq!(e.message(), "Invalid compound btree parameters: eof");
    let r = plugin.new_training_request("", Err("eof".to_string()), false).unwrap();
    assert_eq!(r.parameters().page_size, None);
    assert_eq!(r.criteria().ordering, TrainingOrdering::Values);
    assert!(r.criteria().needs_row_ids);
    let given = CompoundBTreeParameters { page_size: Some(9), column_names: names(&["b", "a"]) };
    let r = plugin.new_training_request("{}", Ok(given), false).unwrap();
    assert_eq!(r.parameters().page_size, Some(9));
}

#[test]
fn plugin_plans_training() {
    let plugin = CompoundBTreeIndexPlugin;
    let schema = Schema::new(vec![
        Field::new("a", DataType::Int64, true),
        Field::new("_rowid", DataType::UInt64, false),
        Field::new("b", DataType::Utf8, true),
    ]);
    let all = CompoundBTreeTrainingRequest::new(CompoundBTreeParameters::default());
    let plan = plugin.plan_training(&all, &schema).unwrap();
    assert_eq!(plan.schema.columns(), &names(&["a", "b"]));
    assert_eq!(plan.schema.data_types(), &vec![DataType::Int64, DataType::Utf8]);
    assert_eq!(plan.schema.num_columns(), 2);
    assert_eq!(plan.page_size, 4096);
    let some = CompoundBTreeTrainingRequest::new(CompoundBTreeParameters {
        page_size: Some(5),
        column_names: names(&["b"]),
    });
    let plan = plugin.plan_training(&some, &schema).unwrap();
    assert_eq!(plan.schema.columns(), &names(&["b"]));
    assert_eq!(plan.page_size, 5);
    let bad = CompoundBTreeTrainingRequest::new(CompoundBTreeParameters {
        page_size: None,
        column_names: names(&["b", "zz"]),
    });
    let e = plugin.plan_training(&bad, &schema).unwrap_err();
    assert_eq!(e.message(), "Column 'zz' not found in training data");
}

#[test]
fn plugin_details() {
    let plugin = CompoundBTreeIndexPlugin;
    let created = created_index(&names(&["a", "b"]));
    assert_eq!(created.index_details.num_columns, 2);
    assert_eq!(created.index_version, 1);
    let parser = plugin.new_query_parser("i".to_string(), Some(created.index_details)).unwrap();
    assert_eq!(parser.data_types(), &vec![DataType::Null, DataType::Null]);
    assert!(parser.is_first_column("a"));
    let none = CompoundBTreeIndexDetails { column_names: vec![], num_columns: 0 };
    assert!(plugin.new_query_parser("i".to_string(), Some(none)).is_none());
    assert!(plugin.new_query_parser("i".to_string(), None).is_none());
    let t = trained(&vec![tenant_batch(&["a"], &["x"], &[1])]);
    let params = derive_index_params(&loaded(&t));
    assert_eq!(params.page_size, Some(6));
    assert_eq!(params.column_names, names(&["tenant_id", "status"]));
    let stats = loaded(&t).statistics();
    assert_eq!(stats.index_type, "CompoundBTree");
    assert_eq!(stats.num_pages, 1);
}
