//! Creating indices: names, dispatch by type, and the record of a new index.
use vstd::prelude::*;
use vstd::string::StringExecFns;

use roaring::RoaringBitmap;
use uuid::Uuid;

use crate::error::{Error, ErrorOf, ErrorView};
use crate::row_set::{insert_bit, new_bitmap};
use crate::schema::{formatted_path, resolved_column, ResolvedColumn, ResolvedView, SchemaField};
use crate::text::{clone_texts, concat2, concat3, contains_char, decimal, join, same_text};

verus! {

/// The name under which parameters of scalar indices are registered.
pub const LANCE_SCALAR_INDEX: &'static str = "__lance_scalar_index";

/// The name under which parameters of vector indices are registered.
pub const LANCE_VECTOR_INDEX: &'static str = "__lance_vector_index";

#[derive(Debug, Clone, Copy, PartialEq, Eq, Structural)]
pub enum IndexType {
    Scalar,
    BTree,
    Bitmap,
    LabelList,
    Inverted,
    NGram,
    FragmentReuse,
    ZoneMap,
    BloomFilter,
    RTree,
    Vector,
    IvfFlat,
    IvfSq,
    IvfPq,
    IvfRq,
    IvfHnswFlat,
    IvfHnswPq,
    IvfHnswSq,
}

impl IndexType {
    /// A vector index.
    pub open spec fn is_vector_type(self) -> bool {
        match self {
            IndexType::Vector
            | IndexType::IvfPq
            | IndexType::IvfSq
            | IndexType::IvfFlat
            | IndexType::IvfRq
            | IndexType::IvfHnswFlat
            | IndexType::IvfHnswPq
            | IndexType::IvfHnswSq => true,
            _ => false,
        }
    }

    /// A scalar index that is asked for by its own type.
    pub open spec fn is_builtin_scalar(self) -> bool {
        match self {
            IndexType::Bitmap
            | IndexType::BTree
            | IndexType::Inverted
            | IndexType::NGram
            | IndexType::ZoneMap
            | IndexType::BloomFilter
            | IndexType::LabelList
            | IndexType::RTree => true,
            _ => false,
        }
    }

    /// Whether this is a vector index.
    pub fn is_vector(&self) -> (r: bool)
        ensures
            r == self.is_vector_type(),
    {
        match self {
            IndexType::Vector
            | IndexType::IvfPq
            | IndexType::IvfSq
            | IndexType::IvfFlat
            | IndexType::IvfRq
            | IndexType::IvfHnswFlat
            | IndexType::IvfHnswPq
            | IndexType::IvfHnswSq => true,
            _ => false,
        }
    }

    fn builtin_scalar(&self) -> (r: bool)
        ensures
            r == self.is_builtin_scalar(),
    {
        match self {
            IndexType::Bitmap
            | IndexType::BTree
            | IndexType::Inverted
            | IndexType::NGram
            | IndexType::ZoneMap
            | IndexType::BloomFilter
            | IndexType::LabelList
            | IndexType::RTree => true,
            _ => false,
        }
    }

    /// The name of the variant.
    pub open spec fn name_text(self) -> Seq<char> {
        match self {
            IndexType::Scalar => "Scalar"@,
            IndexType::BTree => "BTree"@,
            IndexType::Bitmap => "Bitmap"@,
            IndexType::LabelList => "LabelList"@,
            IndexType::Inverted => "Inverted"@,
            IndexType::NGram => "NGram"@,
            IndexType::FragmentReuse => "FragmentReuse"@,
            IndexType::ZoneMap => "ZoneMap"@,
            IndexType::BloomFilter => "BloomFilter"@,
            IndexType::RTree => "RTree"@,
            IndexType::Vector => "Vector"@,
            IndexType::IvfFlat => "IvfFlat"@,
            IndexType::IvfSq => "IvfSq"@,
            IndexType::IvfPq => "IvfPq"@,
            IndexType::IvfRq => "IvfRq"@,
            IndexType::IvfHnswFlat => "IvfHnswFlat"@,
            IndexType::IvfHnswPq => "IvfHnswPq"@,
            IndexType::IvfHnswSq => "IvfHnswSq"@,
        }
    }

    /// The name of the variant.
    pub fn name(&self) -> (r: &'static str)
        ensures
            r@ == self.name_text(),
    {
        match self {
            IndexType::Scalar => "Scalar",
            IndexType::BTree => "BTree",
            IndexType::Bitmap => "Bitmap",
            IndexType::LabelList => "LabelList",
            IndexType::Inverted => "Inverted",
            IndexType::NGram => "NGram",
            IndexType::FragmentReuse => "FragmentReuse",
            IndexType::ZoneMap => "ZoneMap",
            IndexType::BloomFilter => "BloomFilter",
            IndexType::RTree => "RTree",
            IndexType::Vector => "Vector",
            IndexType::IvfFlat => "IvfFlat",
            IndexType::IvfSq => "IvfSq",
            IndexType::IvfPq => "IvfPq",
            IndexType::IvfRq => "IvfRq",
            IndexType::IvfHnswFlat => "IvfHnswFlat",
            IndexType::IvfHnswPq => "IvfHnswPq",
            IndexType::IvfHnswSq => "IvfHnswSq",
        }
    }
}

/// The default name for a field path: the names joined by dots, in the quoted
/// form where a name has a dot itself.
pub open spec fn default_name(fields: Seq<Seq<char>>) -> Seq<char> {
    if exists|i: int| 0 <= i < fields.len() && (#[trigger] fields[i]).contains('.') {
        crate::schema::field_path(fields)
    } else {
        crate::text::joined(fields, "."@)
    }
}

/// Generate default index name from field path.
pub fn default_index_name(fields: &[&str]) -> (r: String)
    ensures
        r@ == default_name(crate::text::slices(fields@)),
        crate::schema::all_ascii(crate::text::slices(fields@)) && (exists|i: int|
            0 <= i < fields@.len() && (#[trigger] crate::text::slices(fields@)[i]).contains('.'))
            ==> r@ == crate::schema::quoted_path(crate::text::slices(fields@)),
{
    let ghost names = crate::text::slices(fields@);
    for i in 0..fields.len()
        invariant
            names == crate::text::slices(fields@),
            forall|j: int| 0 <= j < i ==> !(#[trigger] names[j]).contains('.'),
    {
        assert(names[i as int] == fields@[i as int]@);
        if contains_char(fields[i], '.') {
            return formatted_path(fields);
        }
    }
    join(fields, ".")
}

/// The columns of an index as the schema has them: the fields they resolve to,
/// their names and the ids of the fields.
#[derive(Debug)]
pub struct ValidatedColumns {
    pub fields: Vec<ResolvedColumn>,
    pub corrected_columns: Vec<String>,
    pub field_ids: Vec<i32>,
}

/// The largest number of columns of an index.
pub const MAX_INDEX_COLUMNS: usize = 8;

pub open spec fn is_unresolved(found: Seq<Option<ResolvedView>>) -> spec_fn(int) -> bool {
    |i: int| found[i] is None
}

/// Why the columns cannot be indexed, if they cannot.
pub open spec fn columns_defect(
    columns: Seq<Seq<char>>,
    found: Seq<Option<ResolvedView>>,
) -> Option<ErrorView> {
    if columns.len() == 0 {
        Some(crate::error::index_error("Index must have at least one column"@))
    } else if columns.len() > MAX_INDEX_COLUMNS {
        Some(
            crate::error::index_error(
                "Compound index exceeds maximum of 8 columns (got "@ + crate::text::decimal_text(
                    columns.len(),
                ) + ")"@,
            ),
        )
    } else {
        match crate::first::first_where(columns.len(), is_unresolved(found)) {
            Some(i) => Some(
                crate::error::index_error(
                    "CreateIndex: column '"@ + columns[i] + "' does not exist"@,
                ),
            ),
            None => None,
        }
    }
}

fn as_slices(v: &Vec<String>) -> (r: Vec<&str>)
    ensures
        crate::text::slices(r@) == crate::text::texts(v@),
{
    let mut out: Vec<&str> = Vec::new();
    for i in 0..v.len()
        invariant
            out@.len() == i,
            forall|j: int| 0 <= j < i ==> (#[trigger] out@[j])@ == v@[j]@,
    {
        out.push(v[i].as_str());
    }
    assert(crate::text::slices(out@) =~= crate::text::texts(v@));
    out
}

/// The outcome of validating columns that were found to be these: the error, or
/// for each column its field, its name as the schema writes it, and its field
/// id.
pub open spec fn validates(
    columns: Seq<Seq<char>>,
    found: Seq<Option<ResolvedView>>,
    r: Result<ValidatedColumns, Error>,
) -> bool {
    match columns_defect(columns, found) {
        Some(e) => crate::error::fails_with(r, e),
        None => r matches Ok(v) && v.fields@.len() == columns.len() && v.corrected_columns@.len()
            == columns.len() && v.field_ids@.len() == columns.len() && forall|i: int|
            0 <= i < columns.len() ==> {
                let names = (found[i]->0).path;
                &&& (#[trigger] v.corrected_columns@[i])@ == crate::schema::field_path(names)
                &&& crate::schema::all_ascii(names) ==> v.corrected_columns@[i]@
                    == crate::schema::quoted_path(names)
                &&& v.field_ids@[i] == (found[i]->0).field_id
                &&& v.fields@[i]@ == found[i]->0
            },
    }
}

/// Validate index columns and resolve them against the fields of the dataset:
/// one to eight columns, all of which exist. Gives their fields, their names as
/// the schema writes them, and their field ids.
pub fn validate_index_columns(schema: &Vec<SchemaField>, columns: &Vec<String>) -> (r: Result<
    ValidatedColumns,
    Error,
>)
    ensures
        validates(
            crate::text::texts(columns@),
            crate::schema::resolutions(schema@, crate::text::texts(columns@)),
            r,
        ),
{
    let mut resolved: Vec<Option<ResolvedColumn>> = Vec::new();
    for i in 0..columns.len()
        invariant
            resolved@.len() == i,
            forall|j: int|
                0 <= j < i ==> crate::schema::found_view(#[trigger] resolved@[j])
                    == crate::schema::resolution(schema@, columns@[j]@),
    {
        resolved.push(resolved_column(schema, columns[i].as_str()));
    }
    assert(crate::schema::found_views(resolved@) =~= crate::schema::resolutions(
        schema@,
        crate::text::texts(columns@),
    ));
    validate_resolved_columns(columns, &resolved)
}

/// Validate index columns, given what each resolves to in the schema.
pub fn validate_resolved_columns(
    columns: &Vec<String>,
    resolved: &Vec<Option<ResolvedColumn>>,
) -> (r: Result<ValidatedColumns, Error>)
    requires
        resolved@.len() == columns@.len(),
    ensures
        validates(crate::text::texts(columns@), crate::schema::found_views(resolved@), r),
{
    let n = columns.len();
    if n == 0 {
        return Err(ErrorOf::Index { message: "Index must have at least one column".to_owned() });
    }
    if n > MAX_INDEX_COLUMNS {
        return Err(
            ErrorOf::Index {
                message: concat3(
                    "Compound index exceeds maximum of 8 columns (got ",
                    decimal(n as u64).as_str(),
                    ")",
                ),
            },
        );
    }
    let mut fields: Vec<ResolvedColumn> = Vec::new();
    let mut corrected_columns: Vec<String> = Vec::new();
    let mut field_ids: Vec<i32> = Vec::new();
    let ghost found = crate::schema::found_views(resolved@);
    let ghost p = is_unresolved(found);
    for i in 0..n
        invariant
            n == columns@.len() == resolved@.len(),
            0 < n <= MAX_INDEX_COLUMNS,
            found == crate::schema::found_views(resolved@),
            p == is_unresolved(found),
            forall|j: int| 0 <= j < i ==> !(#[trigger] p(j)),
            fields@.len() == i,
            corrected_columns@.len() == i,
            field_ids@.len() == i,
            forall|j: int|
                0 <= j < i ==> {
                    let names = (found[j]->0).path;
                    &&& (#[trigger] corrected_columns@[j])@ == crate::schema::field_path(names)
                    &&& crate::schema::all_ascii(names) ==> corrected_columns@[j]@
                        == crate::schema::quoted_path(names)
                },
            forall|j: int|
                0 <= j < i ==> #[trigger] field_ids@[j] == (found[j]->0).field_id,
            forall|j: int| 0 <= j < i ==> (#[trigger] fields@[j])@ == found[j]->0,
    {
        match &resolved[i] {
            Some(column) => {
                assert(!p(i as int));
                let names = as_slices(&column.path);
                corrected_columns.push(formatted_path(names.as_slice()));
                field_ids.push(column.field_id);
                fields.push(
                    ResolvedColumn { path: clone_texts(&column.path), field_id: column.field_id },
                );
            },
            None => {
                proof {
                    assert(p(i as int));
                    crate::first::first_where_found(n as nat, p, i as int);
                }
                return Err(
                    ErrorOf::Index {
                        message: concat3(
                            "CreateIndex: column '",
                            columns[i].as_str(),
                            "' does not exist",
                        ),
                    },
                );
            },
        }
    }
    proof {
        crate::first::first_where_absent(n as nat, p);
    }
    Ok(ValidatedColumns { fields, corrected_columns, field_ids })
}

/// What an index has stored about itself: a message and the name of its type.
#[derive(Debug)]
pub struct IndexDetails {
    pub type_url: String,
    pub value: Vec<u8>,
}

/// A point in time, since the start of 1970.
#[derive(Debug, Clone, Copy)]
pub struct Timestamp {
    pub seconds: i64,
    pub nanoseconds: u32,
}

/// A file of an index.
#[derive(Debug)]
pub struct IndexFile {
    pub path: String,
    pub size_bytes: u64,
}

/// The record of an index.
#[derive(Debug)]
pub struct IndexMetadata {
    pub uuid: u128,
    pub name: String,
    pub fields: Vec<i32>,
    pub dataset_version: u64,
    pub fragment_bitmap: Option<RoaringBitmap>,
    pub index_details: Option<IndexDetails>,
    pub index_version: i32,
    pub created_at: Option<Timestamp>,
    pub base_id: Option<u32>,
    pub files: Option<Vec<IndexFile>>,
}

/// An index has this name.
pub open spec fn named(idx: IndexMetadata, name: Seq<char>) -> bool {
    idx.name@ == name
}

/// An index has this name and is on other fields.
pub open spec fn conflicts(idx: IndexMetadata, name: Seq<char>, field_ids: Seq<i32>) -> bool {
    idx.name@ == name && idx.fields@ != field_ids
}

/// A name is that of an index on other fields.
pub open spec fn is_taken(
    indices: Seq<IndexMetadata>,
    name: Seq<char>,
    field_ids: Seq<i32>,
) -> bool {
    exists|i: int| 0 <= i < indices.len() && #[trigger] conflicts(indices[i], name, field_ids)
}

/// The base of generated names.
pub open spec fn base_name(columns: Seq<Seq<char>>) -> Seq<char> {
    (if columns.len() == 1 {
        default_name(columns)
    } else {
        crate::text::joined(columns, "_"@)
    }) + "_idx"@
}

/// The `k`th name that is tried: the base, then the base with a number from
/// two on.
pub open spec fn candidate_name(base: Seq<char>, k: int) -> Seq<char> {
    if k == 0 {
        base
    } else {
        base + "_"@ + crate::text::decimal_text((k + 1) as nat)
    }
}

pub open spec fn is_free(
    indices: Seq<IndexMetadata>,
    base: Seq<char>,
    field_ids: Seq<i32>,
) -> spec_fn(int) -> bool {
    |k: int| !is_taken(indices, candidate_name(base, k), field_ids)
}

/// The generated name: the first one tried that is not taken. One of the first
/// `indices.len() + 1` is free.
pub open spec fn generated_name(
    columns: Seq<Seq<char>>,
    field_ids: Seq<i32>,
    indices: Seq<IndexMetadata>,
) -> Seq<char> {
    candidate_name(
        base_name(columns),
        crate::first::first_where(
            indices.len() + 1,
            is_free(indices, base_name(columns), field_ids),
        )->0,
    )
}

/// Different candidates are different names.
proof fn candidates_differ(base: Seq<char>, a: int, b: int)
    requires
        0 <= a < b,
    ensures
        candidate_name(base, a) != candidate_name(base, b),
{
    let x = candidate_name(base, a);
    let y = candidate_name(base, b);
    if x == y {
        reveal_strlit("_");
        let n = base.len() as int;
        if a == 0 {
            assert(y.len() > base.len());
        } else {
            assert(x.skip(n + 1) =~= crate::text::decimal_text((a + 1) as nat));
            assert(y.skip(n + 1) =~= crate::text::decimal_text((b + 1) as nat));
            crate::text::decimal_text_injective((a + 1) as nat, (b + 1) as nat);
        }
    }
}

/// Among the first `indices.len() + 1` candidates one is free: each taken
/// candidate is the name of an index, and different candidates of different
/// ones.
pub proof fn some_candidate_is_free(
    indices: Seq<IndexMetadata>,
    base: Seq<char>,
    field_ids: Seq<i32>,
)
    ensures
        exists|k: int|
            0 <= k <= indices.len() && #[trigger] is_free(indices, base, field_ids)(k),
        crate::first::first_where(indices.len() + 1, is_free(indices, base, field_ids)) is Some,
{
    crate::first::first_where_spec(indices.len() + 1, is_free(indices, base, field_ids));
    let free = is_free(indices, base, field_ids);
    let n = indices.len();
    if forall|k: int| 0 <= k <= n ==> !(#[trigger] free(k)) {
        let names = Seq::new(n, |i: int| indices[i].name@);
        let tried = Seq::new(n + 1, |k: int| candidate_name(base, k));
        assert(tried.no_duplicates()) by {
            assert forall|a: int, b: int|
                0 <= a < tried.len() && 0 <= b < tried.len() && a != b implies tried[a]
                != tried[b] by {
                if a < b {
                    candidates_differ(base, a, b);
                } else {
                    candidates_differ(base, b, a);
                }
            }
        }
        tried.unique_seq_to_set();
        names.lemma_cardinality_of_set();
        assert(tried.to_set().subset_of(names.to_set())) by {
            assert forall|c: Seq<char>| tried.to_set().contains(c) implies names.to_set().contains(
                c,
            ) by {
                let k = choose|k: int| 0 <= k < tried.len() && tried[k] == c;
                assert(!free(k));
                let i = choose|i: int|
                    0 <= i < indices.len() && #[trigger] conflicts(indices[i], c, field_ids);
                assert(names[i] == c);
            }
        }
        vstd::set_lib::lemma_len_subset(tried.to_set(), names.to_set());
        assert(false);
    }
}

fn same_ids(a: &Vec<i32>, b: &Vec<i32>) -> (r: bool)
    ensures
        r == (a@ == b@),
{
    if a.len() != b.len() {
        return false;
    }
    for i in 0..a.len()
        invariant
            a@.len() == b@.len(),
            forall|j: int| 0 <= j < i ==> a@[j] == b@[j],
    {
        if a[i] != b[i] {
            return false;
        }
    }
    assert(a@ =~= b@);
    true
}

fn taken(indices: &Vec<IndexMetadata>, name: &str, field_ids: &Vec<i32>) -> (r: bool)
    ensures
        r == is_taken(indices@, name@, field_ids@),
{
    for i in 0..indices.len()
        invariant
            forall|j: int| 0 <= j < i ==> !#[trigger] conflicts(indices@[j], name@, field_ids@),
    {
        if same_text(indices[i].name.as_str(), name) && !same_ids(&indices[i].fields, field_ids) {
            assert(conflicts(indices@[i as int], name@, field_ids@));
            return true;
        }
    }
    false
}

/// Generate a default index name with collision handling.
pub fn generate_index_name(
    columns: &Vec<String>,
    field_ids: &Vec<i32>,
    indices: &Vec<IndexMetadata>,
) -> (r: String)
    requires
        indices@.len() < i32::MAX - 1,
    ensures
        r@ == generated_name(crate::text::texts(columns@), field_ids@, indices@),
        crate::first::first_where(
            indices@.len() + 1,
            is_free(indices@, base_name(crate::text::texts(columns@)), field_ids@),
        ) is Some,
        !is_taken(indices@, r@, field_ids@),
{
    let names = as_slices(columns);
    let column_path = if columns.len() == 1 {
        default_index_name(names.as_slice())
    } else {
        join(names.as_slice(), "_")
    };
    let base = concat2(column_path.as_str(), "_idx");
    let ghost cols = crate::text::texts(columns@);
    assert(base@ == base_name(cols));
    let ghost free = is_free(indices@, base@, field_ids@);
    let n = indices.len();
    let mut candidate = base.clone();
    let mut k: usize = 0;
    proof {
        some_candidate_is_free(indices@, base@, field_ids@);
    }
    while taken(indices, candidate.as_str(), field_ids)
        invariant
            n == indices@.len(),
            n < i32::MAX - 1,
            k <= n,
            free == is_free(indices@, base@, field_ids@),
            candidate@ == candidate_name(base@, k as int),
            forall|j: int| 0 <= j < k ==> !(#[trigger] free(j)),
            exists|j: int| 0 <= j <= n && #[trigger] free(j),
        decreases n - k,
    {
        proof {
            assert(!free(k as int));
            let j = choose|j: int| 0 <= j <= n && #[trigger] free(j);
            assert(j > k);
        }
        k += 1;
        candidate = concat3(base.as_str(), "_", decimal(k as u64 + 1).as_str());
    }
    proof {
        assert(free(k as int));
        crate::first::first_where_found(n as nat + 1, free, k as int);
    }
    candidate
}

/// Settings of a scalar index. `S` is `String` in executable code and
/// `Seq<char>` in contracts.
#[derive(Debug)]
pub struct ScalarParamsOf<S> {
    pub index_type: S,
    /// Further settings as a JSON text.
    pub params: Option<S>,
}

pub type ScalarIndexParams = ScalarParamsOf<String>;

impl View for ScalarParamsOf<String> {
    type V = ScalarParamsOf<Seq<char>>;

    open spec fn view(&self) -> ScalarParamsOf<Seq<char>> {
        ScalarParamsOf {
            index_type: self.index_type@,
            params: crate::datatype::opt_text(self.params),
        }
    }
}

impl Clone for ScalarParamsOf<String> {
    fn clone(&self) -> (r: Self)
        ensures
            r@ == self@,
    {
        ScalarParamsOf {
            index_type: self.index_type.clone(),
            params: crate::datatype::clone_opt_text(&self.params),
        }
    }
}

/// What parameters are for.
#[derive(Debug)]
pub enum ParamsKind {
    Scalar(ScalarIndexParams),
    /// Parameters of a full-text index, as the JSON text it trains with.
    Inverted(String),
    /// Parameters of a vector index of a certain type.
    Vector(IndexType),
    Other,
}

/// Parameters of an index, with the name they are registered under.
#[derive(Debug)]
pub struct IndexParams {
    pub index_name: String,
    pub kind: ParamsKind,
}

/// What has to be built.
#[derive(Debug)]
pub enum BuildActionOf<S> {
    /// A compound B-tree over all the columns.
    CompoundBTree { params: ScalarParamsOf<S> },
    /// A scalar index of the type asked for, with the given settings in place
    /// of the type's own.
    Builtin { json: Option<S> },
    /// A scalar index of the type that the parameters name.
    Scalar { params: ScalarParamsOf<S> },
    /// A vector index of some fragments.
    DistributedVector,
    /// A vector index of the whole dataset.
    Vector,
    /// A vector index without rows.
    EmptyVector,
    /// A vector index of a registered extension.
    Extension,
}

pub type BuildAction = BuildActionOf<String>;

impl View for BuildActionOf<String> {
    type V = BuildActionOf<Seq<char>>;

    open spec fn view(&self) -> BuildActionOf<Seq<char>> {
        match self {
            BuildActionOf::CompoundBTree { params } => BuildActionOf::CompoundBTree {
                params: params@,
            },
            BuildActionOf::Builtin { json } => BuildActionOf::Builtin {
                json: crate::datatype::opt_text(*json),
            },
            BuildActionOf::Scalar { params } => BuildActionOf::Scalar { params: params@ },
            BuildActionOf::DistributedVector => BuildActionOf::DistributedVector,
            BuildActionOf::Vector => BuildActionOf::Vector,
            BuildActionOf::EmptyVector => BuildActionOf::EmptyVector,
            BuildActionOf::Extension => BuildActionOf::Extension,
        }
    }
}

/// The text is JSON.
pub uninterp spec fn is_json(text: Seq<char>) -> bool;

/// `serde_json::from_str` to a `Value`: whether it succeeds.
#[verifier::external_body]
fn parses_as_json(text: &str) -> (r: bool)
    ensures
        r == is_json(text@),
{
    serde_json::from_str::<serde_json::Value>(text).is_ok()
}

/// A JSON text in compact form.
pub uninterp spec fn compact_json(text: Seq<char>) -> Seq<char>;

/// `Display` of `serde_json::Value`, on the value that the text stands for.
#[verifier::external_body]
fn compacted_json(text: &str) -> (r: String)
    requires
        is_json(text@),
    ensures
        r@ == compact_json(text@),
{
    serde_json::from_str::<serde_json::Value>(text).unwrap_or_default().to_string()
}

/// The UUID that a text stands for, or why it stands for none.
pub uninterp spec fn parsed_uuid(text: Seq<char>) -> Result<u128, Seq<char>>;

/// `uuid::Uuid::parse_str`.
#[verifier::external_body]
fn parse_uuid(text: &str) -> (r: Result<u128, String>)
    ensures
        match (r, parsed_uuid(text@)) {
            (Ok(u), Ok(v)) => u == v,
            (Err(e), Err(v)) => e@ == v,
            _ => false,
        },
{
    Uuid::parse_str(text).map(|u| u.as_u128()).map_err(|e| e.to_string())
}

/// A hexadecimal digit as a character.
pub open spec fn hex_char(d: int) -> char {
    if d < 10 {
        ('0' as int + d) as char
    } else {
        ('a' as int + d - 10) as char
    }
}

/// The hexadecimal digit at place `k` of 32, the highest first.
pub open spec fn hex_digit(uuid: u128, k: int) -> char {
    hex_char(((uuid >> ((31 - k) * 4) as u128) & 0xf) as int)
}

/// The text of a UUID: 32 hexadecimal digits, with hyphens after the eighth,
/// the twelfth, the sixteenth and the twentieth.
pub open spec fn uuid_text(uuid: u128) -> Seq<char> {
    Seq::new(
        36,
        |i: int|
            if i == 8 || i == 13 || i == 18 || i == 23 {
                '-'
            } else if i < 8 {
                hex_digit(uuid, i)
            } else if i < 13 {
                hex_digit(uuid, i - 1)
            } else if i < 18 {
                hex_digit(uuid, i - 2)
            } else if i < 23 {
                hex_digit(uuid, i - 3)
            } else {
                hex_digit(uuid, i - 4)
            },
    )
}

/// `uuid::Uuid`'s `Display`: the hyphenated form, in lower case.
#[verifier::external_body]
fn uuid_to_text(uuid: u128) -> (r: String)
    ensures
        r@ == uuid_text(uuid),
{
    Uuid::from_u128(uuid).to_string()
}

/// Version four and the variant of RFC 4122.
pub open spec fn is_random_uuid(u: u128) -> bool {
    (u >> 76) & 0xf == 4 && (u >> 62) & 0x3 == 2
}

/// `uuid::Uuid::new_v4`: a random UUID, of which the version is four and the
/// variant that of RFC 4122.
#[verifier::external_body]
fn random_uuid() -> (r: u128)
    ensures
        is_random_uuid(r),
{
    Uuid::new_v4().as_u128()
}

/// A request to create an index.
#[derive(Debug)]
pub struct CreateIndexBuilder {
    pub columns: Vec<String>,
    pub index_type: IndexType,
    pub params: IndexParams,
    pub name: Option<String>,
    pub replace: bool,
    pub train: bool,
    pub fragments: Option<Vec<u32>>,
    pub index_uuid: Option<String>,
    pub has_preprocessed_data: bool,
    /// Key-value pairs to store with the commit.
    pub transaction_properties: Option<Vec<(String, String)>>,
    pub mem_pool_size: Option<u64>,
}

/// A copy of string slices.
fn owned_texts(v: &[&str]) -> (r: Vec<String>)
    ensures
        crate::text::texts(r@) == crate::text::slices(v@),
{
    let mut out: Vec<String> = Vec::new();
    for i in 0..v.len()
        invariant
            out@.len() == i,
            forall|j: int| 0 <= j < i ==> (#[trigger] out@[j])@ == v@[j]@,
    {
        out.push(v[i].to_owned());
    }
    assert(crate::text::texts(out@) =~= crate::text::slices(v@));
    out
}

/// What to build for a request, or why nothing can be built.
pub open spec fn build_decision(
    b: CreateIndexBuilder,
    train: bool,
    has_extension: bool,
    shown_type: Seq<char>,
) -> Result<BuildActionOf<Seq<char>>, ErrorView> {
    let t = b.index_type;
    let name = b.params.index_name@;
    if b.columns@.len() > 1 {
        if (t == IndexType::Scalar || t == IndexType::BTree) && name == LANCE_SCALAR_INDEX@ {
            Ok(
                BuildActionOf::CompoundBTree {
                    params: match b.params.kind {
                        ParamsKind::Scalar(p) => p@,
                        _ => ScalarParamsOf { index_type: "compoundbtree"@, params: None },
                    },
                },
            )
        } else {
            Err(
                crate::error::index_error(
                    "Index type "@ + t.name_text()
                        + " does not support multiple columns. Use BTree or Scalar for compound indices."@,
                ),
            )
        }
    } else if t.is_builtin_scalar() && name == LANCE_SCALAR_INDEX@ {
        Ok(
            BuildActionOf::Builtin {
                json: match b.params.kind {
                    ParamsKind::Scalar(p) => match p@.params {
                        Some(text) => if is_json(text) {
                            Some(compact_json(text))
                        } else {
                            None
                        },
                        None => None,
                    },
                    _ => None,
                },
            },
        )
    } else if t == IndexType::Scalar && name == LANCE_SCALAR_INDEX@ {
        match b.params.kind {
            ParamsKind::Scalar(p) => Ok(BuildActionOf::Scalar { params: p@ }),
            _ => Err(
                crate::error::index_error("Scalar index type must take a ScalarIndexParams"@),
            ),
        }
    } else if t == IndexType::Inverted {
        match b.params.kind {
            ParamsKind::Inverted(json) => Ok(
                BuildActionOf::Scalar {
                    params: ScalarParamsOf { index_type: "inverted"@, params: Some(json@) },
                },
            ),
            _ => Err(
                crate::error::index_error(
                    "Inverted index type must take a InvertedIndexParams"@,
                ),
            ),
        }
    } else if t.is_vector_type() && name == LANCE_VECTOR_INDEX@ {
        match b.params.kind {
            ParamsKind::Vector(_) => Ok(
                if !train {
                    BuildActionOf::EmptyVector
                } else if b.fragments is Some {
                    BuildActionOf::DistributedVector
                } else {
                    BuildActionOf::Vector
                },
            ),
            _ => Err(
                crate::error::index_error("Vector index type must take a VectorIndexParams"@),
            ),
        }
    } else if t == IndexType::Vector && has_extension {
        Ok(BuildActionOf::Extension)
    } else if t == IndexType::FragmentReuse {
        Err(
            crate::error::index_error(
                "Fragment reuse index can only be created through compaction"@,
            ),
        )
    } else {
        Err(
            crate::error::index_error(
                "Index type "@ + shown_type + " with name "@ + name + " is not supported"@,
            ),
        )
    }
}

/// Requests that are not served: preprocessed data for a built-in type other
/// than the B-tree, and an extension without training.
pub open spec fn unserved(b: CreateIndexBuilder, train: bool, has_extension: bool) -> bool {
    &&& b.columns@.len() <= 1
    &&& {
        ||| b.has_preprocessed_data && b.index_type.is_builtin_scalar() && b.index_type
            != IndexType::BTree && b.params.index_name@ == LANCE_SCALAR_INDEX@
        ||| !train && has_extension && b.index_type == IndexType::Vector
            && b.params.index_name@ != LANCE_VECTOR_INDEX@
    }
}

/// Why an index cannot have a name, if it cannot.
pub open spec fn name_defect(
    name: Seq<char>,
    field_ids: Seq<i32>,
    indices: Seq<IndexMetadata>,
    replace: bool,
) -> Option<ErrorView> {
    if is_taken(indices, name, field_ids) {
        Some(
            crate::error::index_error(
                "Index name '"@ + name
                    + "' already exists with different fields, please specify a different name"@,
            ),
        )
    } else if !replace && (exists|i: int|
        0 <= i < indices.len() && #[trigger] named(indices[i], name)) {
        Some(
            crate::error::index_error(
                "Index name '"@ + name
                    + "' already exists, please specify a different name or use replace=True"@,
            ),
        )
    } else {
        None
    }
}

/// The numbers in a list.
pub open spec fn numbers(v: Seq<u32>) -> Set<u32>
    decreases v.len(),
{
    if v.len() == 0 {
        Set::empty()
    } else {
        numbers(v.drop_last()).insert(v.last())
    }
}

/// A list's numbers are its elements.
pub proof fn numbers_contains(v: Seq<u32>, x: u32)
    ensures
        numbers(v).contains(x) <==> v.contains(x),
    decreases v.len(),
{
    if v.len() > 0 {
        numbers_contains(v.drop_last(), x);
        if v.contains(x) {
            let i = choose|i: int| 0 <= i < v.len() && v[i] == x;
            if i < v.len() - 1 {
                assert(v.drop_last()[i] == x);
            }
        }
        if numbers(v.drop_last()).contains(x) {
            let i = choose|i: int| 0 <= i < v.drop_last().len() && v.drop_last()[i] == x;
            assert(v[i] == x);
        }
        if v.last() == x {
            assert(v[v.len() - 1] == x);
        }
    }
}

/// A bitmap of the given numbers.
fn bitmap_of(v: &Vec<u32>) -> (r: RoaringBitmap)
    ensures
        crate::row_set::bits(r) == numbers(v@),
{
    let mut out = new_bitmap();
    for i in 0..v.len()
        invariant
            crate::row_set::bits(out) == numbers(v@.take(i as int)),
    {
        assert(v@.take(i + 1).drop_last() =~= v@.take(i as int));
        insert_bit(&mut out, v[i]);
    }
    assert(v@.take(v@.len() as int) =~= v@);
    out
}

/// What to do to create an index.
#[derive(Debug)]
pub struct IndexPlan {
    pub train: bool,
    pub name: String,
    pub uuid: u128,
    pub action: BuildAction,
    /// Whether the index is built from the preprocessed data.
    pub preprocessed: bool,
}

/// What building an index gave.
#[derive(Debug)]
pub struct BuiltIndex {
    /// The id of the segment, where the index was built as one.
    pub segment_uuid: Option<u128>,
    pub index_details: IndexDetails,
    pub index_version: u32,
    pub files: Option<Vec<IndexFile>>,
}

/// A commit of new indices.
#[derive(Debug)]
pub struct CreateIndexTransaction {
    pub read_version: u64,
    pub new_indices: Vec<IndexMetadata>,
    /// The positions of the indices that go.
    pub removed_indices: Vec<usize>,
    pub transaction_properties: Option<Vec<(String, String)>>,
}

/// What stands against the name or the id of the new index, if anything does.
pub open spec fn request_defect(
    b: CreateIndexBuilder,
    field_ids: Seq<i32>,
    indices: Seq<IndexMetadata>,
) -> Option<ErrorView> {
    match name_defect(b.wanted_name(field_ids, indices), field_ids, indices, b.replace) {
        Some(e) => Some(e),
        None => b.uuid_defect(),
    }
}

/// The builder after planning: without the name, and without the preprocessed
/// data where the index takes it.
pub open spec fn planned_builder(
    b: CreateIndexBuilder,
    r: Result<IndexPlan, Error>,
) -> CreateIndexBuilder {
    CreateIndexBuilder {
        name: None,
        has_preprocessed_data: b.has_preprocessed_data && !(r matches Ok(plan)
            && plan.preprocessed),
        ..b
    }
}

/// `r` is the plan for a request, or the first thing that stands against it.
pub open spec fn is_plan(
    r: Result<IndexPlan, Error>,
    b: CreateIndexBuilder,
    field_ids: Seq<i32>,
    train: bool,
    indices: Seq<IndexMetadata>,
    has_extension: bool,
    shown_type: Seq<char>,
) -> bool {
    match request_defect(b, field_ids, indices) {
        Some(e) => crate::error::fails_with(r, e),
        None => match (r, build_decision(b, train, has_extension, shown_type)) {
            (Ok(plan), Ok(action)) => {
                &&& plan.train == train
                &&& plan.name@ == b.wanted_name(field_ids, indices)
                &&& plan.action@ == action
                &&& plan.preprocessed == (b.has_preprocessed_data && action is Builtin)
                &&& match b.index_uuid {
                    Some(text) => parsed_uuid(text@) == Ok::<u128, Seq<char>>(plan.uuid),
                    None => is_random_uuid(plan.uuid),
                }
            },
            (Err(e), Err(v)) => e@ == v,
            _ => false,
        },
    }
}

impl CreateIndexBuilder {
    /// The name asked for, or a generated one.
    pub open spec fn wanted_name(
        &self,
        field_ids: Seq<i32>,
        indices: Seq<IndexMetadata>,
    ) -> Seq<char> {
        match self.name {
            Some(n) => n@,
            None => generated_name(crate::text::texts(self.columns@), field_ids, indices),
        }
    }

    /// Why the id asked for is none, if it is none.
    pub open spec fn uuid_defect(&self) -> Option<ErrorView> {
        match self.index_uuid {
            Some(text) => match parsed_uuid(text@) {
                Ok(_) => None,
                Err(e) => Some(
                    crate::error::index_error("Invalid UUID string provided: "@ + e),
                ),
            },
            None => None,
        }
    }

    pub fn new(columns: &[&str], index_type: IndexType, params: IndexParams) -> (r:
        CreateIndexBuilder)
        ensures
            crate::text::texts(r.columns@) == crate::text::slices(columns@),
            r.index_type == index_type,
            r.params == params,
            r.name is None,
            !r.replace,
            r.train,
            r.fragments is None,
            r.index_uuid is None,
            !r.has_preprocessed_data,
            r.transaction_properties is None,
            r.mem_pool_size is None,
    {
        CreateIndexBuilder {
            columns: owned_texts(columns),
            index_type,
            params,
            name: None,
            replace: false,
            train: true,
            fragments: None,
            index_uuid: None,
            has_preprocessed_data: false,
            transaction_properties: None,
            mem_pool_size: None,
        }
    }

    pub fn name(self, name: String) -> (r: Self)
        ensures
            r == (CreateIndexBuilder { name: Some(name), ..self }),
    {
        CreateIndexBuilder { name: Some(name), ..self }
    }

    pub fn replace(self, replace: bool) -> (r: Self)
        ensures
            r == (CreateIndexBuilder { replace, ..self }),
    {
        CreateIndexBuilder { replace, ..self }
    }

    pub fn train(self, train: bool) -> (r: Self)
        ensures
            r == (CreateIndexBuilder { train, ..self }),
    {
        CreateIndexBuilder { train, ..self }
    }

    pub fn fragments(self, fragment_ids: Vec<u32>) -> (r: Self)
        ensures
            r == (CreateIndexBuilder { fragments: Some(fragment_ids), ..self }),
    {
        CreateIndexBuilder { fragments: Some(fragment_ids), ..self }
    }

    pub fn index_uuid(self, uuid: String) -> (r: Self)
        ensures
            r == (CreateIndexBuilder { index_uuid: Some(uuid), ..self }),
    {
        CreateIndexBuilder { index_uuid: Some(uuid), ..self }
    }

    /// Say that a stream of preprocessed data comes with the request.
    pub fn preprocessed_data(self) -> (r: Self)
        ensures
            r == (CreateIndexBuilder { has_preprocessed_data: true, ..self }),
    {
        CreateIndexBuilder { has_preprocessed_data: true, ..self }
    }

    /// Set transaction properties to store with this commit.
    pub fn transaction_properties(self, properties: Vec<(String, String)>) -> (r: Self)
        ensures
            r == (CreateIndexBuilder { transaction_properties: Some(properties), ..self }),
    {
        CreateIndexBuilder { transaction_properties: Some(properties), ..self }
    }

    /// Set the sort/aggregate spill pool size in bytes for this index build.
    pub fn mem_pool_size(self, size: u64) -> (r: Self)
        ensures
            r == (CreateIndexBuilder { mem_pool_size: Some(size), ..self }),
    {
        CreateIndexBuilder { mem_pool_size: Some(size), ..self }
    }

    /// Whether to train: where asked for, and where there are rows.
    pub fn effective_train(&self, row_count: usize) -> (r: bool)
        ensures
            r == (self.train && row_count > 0),
    {
        self.train && row_count > 0
    }

    /// The name of the new index: the one asked for or a generated one, unless
    /// an existing index stands against it.
    pub fn resolve_name(&self, field_ids: &Vec<i32>, indices: &Vec<IndexMetadata>) -> (r: Result<
        String,
        Error,
    >)
        requires
            indices@.len() < i32::MAX - 1,
        ensures
            ({
                let name = self.wanted_name(field_ids@, indices@);
                match name_defect(name, field_ids@, indices@, self.replace) {
                    Some(e) => crate::error::fails_with(r, e),
                    None => r matches Ok(n) && n@ == name,
                }
            }),
    {
        let index_name = match &self.name {
            Some(name) => name.clone(),
            None => generate_index_name(&self.columns, field_ids, indices),
        };
        if taken(indices, index_name.as_str(), field_ids) {
            return Err(
                ErrorOf::Index {
                    message: concat3(
                        "Index name '",
                        index_name.as_str(),
                        "' already exists with different fields, please specify a different name",
                    ),
                },
            );
        }
        let mut exists_already = false;
        for i in 0..indices.len()
            invariant
                exists_already == exists|j: int|
                    0 <= j < i && #[trigger] named(indices@[j], index_name@),
        {
            if same_text(indices[i].name.as_str(), index_name.as_str()) {
                assert(named(indices@[i as int], index_name@));
                exists_already = true;
            }
        }
        if exists_already && !self.replace {
            return Err(
                ErrorOf::Index {
                    message: concat3(
                        "Index name '",
                        index_name.as_str(),
                        "' already exists, please specify a different name or use replace=True",
                    ),
                },
            );
        }
        Ok(index_name)
    }

    /// The id of the new index: the one asked for, or a random one.
    pub fn resolve_uuid(&self) -> (r: Result<u128, Error>)
        ensures
            match self.uuid_defect() {
                Some(e) => crate::error::fails_with(r, e),
                None => r matches Ok(u) && match self.index_uuid {
                    Some(text) => parsed_uuid(text@) == Ok::<u128, Seq<char>>(u),
                    None => is_random_uuid(u),
                },
            },
    {
        match &self.index_uuid {
            Some(text) => match parse_uuid(text.as_str()) {
                Ok(u) => Ok(u),
                Err(e) => Err(
                    ErrorOf::Index {
                        message: concat2("Invalid UUID string provided: ", e.as_str()),
                    },
                ),
            },
            None => Ok(random_uuid()),
        }
    }

    /// What to build. `has_extension` says whether an extension is registered
    /// for the parameters' name, `shown_type` is the index type as errors show
    /// it.
    pub fn build_action(&self, train: bool, has_extension: bool, shown_type: &str) -> (r: Result<
        BuildAction,
        Error,
    >)
        requires
            !unserved(*self, train, has_extension),
        ensures
            match (r, build_decision(*self, train, has_extension, shown_type@)) {
                (Ok(a), Ok(v)) => a@ == v,
                (Err(e), Err(v)) => e@ == v,
                _ => false,
            },
    {
        let scalar_name = same_text(self.params.index_name.as_str(), LANCE_SCALAR_INDEX);
        let vector_name = same_text(self.params.index_name.as_str(), LANCE_VECTOR_INDEX);
        let t = self.index_type;
        if self.columns.len() > 1 {
            if (t == IndexType::Scalar || t == IndexType::BTree) && scalar_name {
                let params = match &self.params.kind {
                    ParamsKind::Scalar(p) => p.clone(),
                    _ => ScalarParamsOf { index_type: "compoundbtree".to_owned(), params: None },
                };
                return Ok(BuildActionOf::CompoundBTree { params });
            }
            return Err(
                ErrorOf::Index {
                    message: concat3(
                        "Index type ",
                        t.name(),
                        " does not support multiple columns. Use BTree or Scalar for compound indices.",
                    ),
                },
            );
        }
        if t.builtin_scalar() && scalar_name {
            let json = match &self.params.kind {
                ParamsKind::Scalar(p) => match &p.params {
                    Some(text) => if parses_as_json(text.as_str()) {
                        Some(compacted_json(text.as_str()))
                    } else {
                        None
                    },
                    None => None,
                },
                _ => None,
            };
            return Ok(BuildActionOf::Builtin { json });
        }
        if t == IndexType::Scalar && scalar_name {
            return match &self.params.kind {
                ParamsKind::Scalar(p) => Ok(BuildActionOf::Scalar { params: p.clone() }),
                _ => Err(
                    ErrorOf::Index {
                        message: "Scalar index type must take a ScalarIndexParams".to_owned(),
                    },
                ),
            };
        }
        if t == IndexType::Inverted {
            return match &self.params.kind {
                ParamsKind::Inverted(json) => Ok(
                    BuildActionOf::Scalar {
                        params: ScalarParamsOf {
                            index_type: "inverted".to_owned(),
                            params: Some(json.clone()),
                        },
                    },
                ),
                _ => Err(
                    ErrorOf::Index {
                        message: "Inverted index type must take a InvertedIndexParams".to_owned(),
                    },
                ),
            };
        }
        if t.is_vector() && vector_name {
            return match &self.params.kind {
                ParamsKind::Vector(_) => Ok(
                    if !train {
                        BuildActionOf::EmptyVector
                    } else if self.fragments.is_some() {
                        BuildActionOf::DistributedVector
                    } else {
                        BuildActionOf::Vector
                    },
                ),
                _ => Err(
                    ErrorOf::Index {
                        message: "Vector index type must take a VectorIndexParams".to_owned(),
                    },
                ),
            };
        }
        if t == IndexType::Vector && has_extension {
            return Ok(BuildActionOf::Extension);
        }
        if t == IndexType::FragmentReuse {
            return Err(
                ErrorOf::Index {
                    message: "Fragment reuse index can only be created through compaction"
                        .to_owned(),
                },
            );
        }
        let mut message = concat3("Index type ", shown_type, " with name ");
        message.append(self.params.index_name.as_str());
        message.append(" is not supported");
        Err(ErrorOf::Index { message })
    }

    /// Whether the request is one that is not served.
    fn is_unserved(&self, train: bool, has_extension: bool) -> (r: bool)
        ensures
            r == unserved(*self, train, has_extension),
    {
        let scalar_name = same_text(self.params.index_name.as_str(), LANCE_SCALAR_INDEX);
        let vector_name = same_text(self.params.index_name.as_str(), LANCE_VECTOR_INDEX);
        let preprocessed = self.has_preprocessed_data && self.index_type.builtin_scalar()
            && self.index_type != IndexType::BTree && scalar_name;
        let untrained = !train && has_extension && self.index_type == IndexType::Vector
            && !vector_name;
        self.columns.len() <= 1 && (preprocessed || untrained)
    }

    /// What to do for a request whose columns are valid: whether to train, the
    /// name and the id of the new index, and what to build. The first thing
    /// that stands against it is the error. The name is used up, and so is the
    /// preprocessed data where the index takes it.
    pub fn plan_index(
        &mut self,
        field_ids: &Vec<i32>,
        row_count: usize,
        indices: &Vec<IndexMetadata>,
        has_extension: bool,
        shown_type: &str,
    ) -> (r: Result<IndexPlan, Error>)
        requires
            indices@.len() < i32::MAX - 1,
            request_defect(*old(self), field_ids@, indices@) is None ==> !unserved(
                *old(self),
                old(self).train && row_count > 0,
                has_extension,
            ),
        ensures
            *final(self) == planned_builder(*old(self), r),
            is_plan(
                r,
                *old(self),
                field_ids@,
                old(self).train && row_count > 0,
                indices@,
                has_extension,
                shown_type@,
            ),
    {
        let train = self.effective_train(row_count);
        let resolved = self.resolve_name(field_ids, indices);
        let ghost asked = *self;
        self.name = None;
        let name = match resolved {
            Ok(name) => name,
            Err(e) => {
                return Err(e);
            },
        };
        let uuid: u128 = match self.resolve_uuid() {
            Ok(uuid) => uuid,
            Err(e) => {
                return Err(e);
            },
        };
        assert(build_decision(asked, train, has_extension, shown_type@) == build_decision(
            *self,
            train,
            has_extension,
            shown_type@,
        ));
        match self.build_action(train, has_extension, shown_type) {
            Ok(action) => {
                let preprocessed = match &action {
                    BuildActionOf::Builtin { .. } => self.has_preprocessed_data,
                    _ => false,
                };
                if preprocessed {
                    self.has_preprocessed_data = false;
                }
                Ok(IndexPlan { train, name, uuid, action, preprocessed })
            },
            Err(e) => Err(e),
        }
    }

    /// As `plan_index`, for any request: nothing for one that is not served and
    /// whose name and id nothing stands against.
    pub fn try_plan_index(
        &mut self,
        field_ids: &Vec<i32>,
        row_count: usize,
        indices: &Vec<IndexMetadata>,
        has_extension: bool,
        shown_type: &str,
    ) -> (r: Option<Result<IndexPlan, Error>>)
        requires
            indices@.len() < i32::MAX - 1,
        ensures
            ({
                let train = old(self).train && row_count > 0;
                match r {
                    None => {
                        &&& request_defect(*old(self), field_ids@, indices@) is None
                        &&& unserved(*old(self), train, has_extension)
                        &&& *final(self) == (CreateIndexBuilder { name: None, ..*old(self) })
                    },
                    Some(plan) => {
                        &&& request_defect(*old(self), field_ids@, indices@) is Some || !unserved(
                            *old(self),
                            train,
                            has_extension,
                        )
                        &&& *final(self) == planned_builder(*old(self), plan)
                        &&& is_plan(
                            plan,
                            *old(self),
                            field_ids@,
                            train,
                            indices@,
                            has_extension,
                            shown_type@,
                        )
                    },
                }
            }),
    {
        let train = self.effective_train(row_count);
        if self.is_unserved(train, has_extension) {
            let named = self.resolve_name(field_ids, indices).is_ok();
            if named && self.resolve_uuid().is_ok() {
                self.name = None;
                return None;
            }
        }
        Some(self.plan_index(field_ids, row_count, indices, has_extension, shown_type))
    }

    /// The record of the index that was built. A trained index covers the
    /// fragments asked for, or all of the dataset; an untrained one covers none.
    /// A distributed vector index has the id of its segment.
    pub fn index_metadata(
        &self,
        plan: IndexPlan,
        field_ids: Vec<i32>,
        dataset_version: u64,
        dataset_fragments: RoaringBitmap,
        built: BuiltIndex,
        created_at: Timestamp,
    ) -> (r: IndexMetadata)
        ensures
            r.uuid == (match (plan.action@, built.segment_uuid) {
                (BuildActionOf::DistributedVector, Some(segment)) => segment,
                _ => plan.uuid,
            }),
            r.name == plan.name,
            r.fields == field_ids,
            r.dataset_version == dataset_version,
            r.fragment_bitmap matches Some(m) && crate::row_set::bits(m) == (if plan.train {
                match self.fragments {
                    Some(ids) => numbers(ids@),
                    None => crate::row_set::bits(dataset_fragments),
                }
            } else {
                Set::<u32>::empty()
            }),
            r.index_details == Some(built.index_details),
            r.index_version == built.index_version as i32,
            r.created_at == Some(created_at),
            r.base_id is None,
            r.files == built.files,
    {
        let bitmap = if plan.train {
            match &self.fragments {
                Some(ids) => bitmap_of(ids),
                None => dataset_fragments,
            }
        } else {
            new_bitmap()
        };
        let uuid = match (&plan.action, built.segment_uuid) {
            (BuildActionOf::DistributedVector, Some(segment)) => segment,
            _ => plan.uuid,
        };
        IndexMetadata {
            uuid,
            name: plan.name,
            fields: field_ids,
            dataset_version,
            fragment_bitmap: Some(bitmap),
            index_details: Some(built.index_details),
            index_version: #[verifier::truncate] (built.index_version as i32),
            created_at: Some(created_at),
            base_id: None,
            files: built.files,
        }
    }

    /// The commit of new indices, read at a version of the dataset, in place of
    /// those at the given positions. It carries the properties set for it.
    pub fn transaction(
        self,
        read_version: u64,
        new_indices: Vec<IndexMetadata>,
        removed_indices: Vec<usize>,
    ) -> (r: CreateIndexTransaction)
        ensures
            r == (CreateIndexTransaction {
                read_version,
                new_indices,
                removed_indices,
                transaction_properties: self.transaction_properties,
            }),
    {
        CreateIndexTransaction {
            read_version,
            new_indices,
            removed_indices,
            transaction_properties: self.transaction_properties,
        }
    }

    /// The positions of the indices that the new one replaces.
    pub fn removed_indices(&self, name: &str, indices: &Vec<IndexMetadata>) -> (r: Vec<usize>)
        ensures
            r@ == (if self.replace {
                positions_named(indices@, name@)
            } else {
                Seq::empty()
            }),
    {
        let mut out: Vec<usize> = Vec::new();
        if self.replace {
            for i in 0..indices.len()
                invariant
                    out@ == positions_named(indices@.take(i as int), name@),
            {
                assert(indices@.take(i + 1).drop_last() =~= indices@.take(i as int));
                if same_text(indices[i].name.as_str(), name) {
                    out.push(i);
                }
            }
            assert(indices@.take(indices@.len() as int) =~= indices@);
        }
        out
    }

    /// How the new index is committed: through its segments, of the given type,
    /// or as it is.
    pub fn commit_path(&self, new_name: &str, new_fields: &Vec<i32>) -> (r: Result<
        CommitPath,
        Error,
    >)
        ensures
            match self.params.kind {
                ParamsKind::Vector(t) if new_name@ == LANCE_VECTOR_INDEX@
                    && self.index_type.is_vector_type() => if new_fields@.len() == 0 {
                    crate::error::fails_with(
                        r,
                        crate::error::internal_error(
                            "Index '"@ + new_name@ + "' is missing field ids after build"@,
                        ),
                    )
                } else {
                    r == Ok::<CommitPath, Error>(
                        CommitPath::Segments { field_id: new_fields@[0], index_type: t },
                    )
                },
                _ => r == Ok::<CommitPath, Error>(CommitPath::Direct),
            },
    {
        if !uses_segment_commit_path(self.index_type, new_name, &self.params) {
            return Ok(CommitPath::Direct);
        }
        if new_fields.len() == 0 {
            return Err(
                ErrorOf::Internal {
                    message: concat3(
                        "Index '",
                        new_name,
                        "' is missing field ids after build",
                    ),
                },
            );
        }
        match &self.params.kind {
            ParamsKind::Vector(t) => Ok(
                CommitPath::Segments { field_id: new_fields[0], index_type: *t },
            ),
            _ => Ok(CommitPath::Direct),
        }
    }
}

/// How a new index is committed.
#[derive(Debug, Clone, Copy, PartialEq, Eq, Structural)]
pub enum CommitPath {
    Direct,
    Segments { field_id: i32, index_type: IndexType },
}

/// The positions of the indices with a name, in order.
pub open spec fn positions_named(indices: Seq<IndexMetadata>, name: Seq<char>) -> Seq<usize>
    decreases indices.len(),
{
    if indices.len() == 0 {
        Seq::empty()
    } else {
        let rest = positions_named(indices.drop_last(), name);
        if named(indices.last(), name) {
            rest.push((indices.len() - 1) as usize)
        } else {
            rest
        }
    }
}

/// Whether an index is committed through its segments: a vector index under
/// the vector index name, with vector parameters.
pub fn uses_segment_commit_path(
    index_type: IndexType,
    index_name: &str,
    params: &IndexParams,
) -> (r: bool)
    ensures
        r == (index_name@ == LANCE_VECTOR_INDEX@ && index_type.is_vector_type()
            && params.kind is Vector),
{
    if !same_text(index_name, LANCE_VECTOR_INDEX) {
        return false;
    }
    let vector_params = match &params.kind {
        ParamsKind::Vector(_) => true,
        _ => false,
    };
    index_type.is_vector() && vector_params
}

pub open spec fn has_uuid(indices: Seq<IndexMetadata>, uuid: u128) -> spec_fn(int) -> bool {
    |i: int| indices[i].uuid == uuid
}

/// The committed index: the first one with the UUID.
pub fn find_committed(indices: &Vec<IndexMetadata>, uuid: u128) -> (r: Result<usize, Error>)
    ensures
        match crate::first::first_where(indices@.len(), has_uuid(indices@, uuid)) {
            Some(i) => r == Ok::<usize, Error>(i as usize),
            None => crate::error::fails_with(
                r,
                crate::error::internal_error(
                    "Index with UUID "@ + uuid_text(uuid) + " not found after commit"@,
                ),
            ),
        },
{
    let ghost p = has_uuid(indices@, uuid);
    let n = indices.len();
    for i in 0..n
        invariant
            n == indices@.len(),
            p == has_uuid(indices@, uuid),
            forall|j: int| 0 <= j < i ==> !(#[trigger] p(j)),
    {
        if indices[i].uuid == uuid {
            proof {
                assert(p(i as int));
                crate::first::first_where_found(n as nat, p, i as int);
            }
            return Ok(i);
        }
        assert(!p(i as int));
    }
    proof {
        crate::first::first_where_absent(n as nat, p);
    }
    Err(
        ErrorOf::Internal {
            message: concat3(
                "Index with UUID ",
                uuid_to_text(uuid).as_str(),
                " not found after commit",
            ),
        },
    )
}

/// Who plans and builds segments of an index type.
#[derive(Debug, Clone, Copy, PartialEq, Eq, Structural)]
pub enum SegmentFamily {
    Inverted,
    Vector,
}

pub open spec fn family_of(t: IndexType) -> Option<SegmentFamily> {
    if t == IndexType::Inverted {
        Some(SegmentFamily::Inverted)
    } else if t.is_vector_type() {
        Some(SegmentFamily::Vector)
    } else {
        None
    }
}

/// Builds physical index segments from index outputs that were written and not
/// committed.
#[derive(Debug)]
pub struct IndexSegmentBuilder {
    pub index_type: Option<IndexType>,
    pub segments: Vec<IndexMetadata>,
    pub target_segment_bytes: Option<u64>,
}

/// The property of being a segment whose UUID an earlier one has.
pub open spec fn repeats(segments: Seq<IndexMetadata>) -> spec_fn(int) -> bool {
    |i: int| exists|j: int| 0 <= j < i && (#[trigger] segments[j]).uuid == segments[i].uuid
}

/// Who plans the segments, or why they cannot be planned.
pub open spec fn planning(b: IndexSegmentBuilder, shown_type: Seq<char>) -> Result<
    SegmentFamily,
    ErrorView,
> {
    if b.segments@.len() == 0 {
        Err(
            crate::error::invalid_input(
                "IndexSegmentBuilder requires at least one segment; call with_segments(...) with execute_uncommitted() outputs"@,
            ),
        )
    } else {
        match b.index_type {
            None => Err(
                crate::error::invalid_input(
                    "IndexSegmentBuilder requires an explicit index type; call with_index_type(...)"@,
                ),
            ),
            Some(t) => match crate::first::first_where(b.segments@.len(), repeats(b.segments@)) {
                Some(i) => Err(
                    crate::error::invalid_input(
                        "IndexSegmentBuilder received duplicate segment uuid "@ + uuid_text(
                            b.segments@[i].uuid,
                        ),
                    ),
                ),
                None => match family_of(t) {
                    Some(f) => Ok(f),
                    None => Err(
                        crate::error::invalid_input(
                            "IndexSegmentBuilder does not support planning segments for index type "@
                                + shown_type,
                        ),
                    ),
                },
            },
        }
    }
}

/// Who builds a planned segment, or why it cannot be built.
pub open spec fn building(requested: Option<IndexType>, shown_type: Seq<char>) -> Result<
    SegmentFamily,
    ErrorView,
> {
    match requested {
        None => Err(
            crate::error::invalid_input(
                "IndexSegmentBuilder requires planned segments to declare an index type"@,
            ),
        ),
        Some(t) => match family_of(t) {
            Some(f) => Ok(f),
            None => Err(
                crate::error::invalid_input(
                    "IndexSegmentBuilder does not support building segments for index type "@
                        + shown_type,
                ),
            ),
        },
    }
}

pub open spec fn family_is(
    r: Result<SegmentFamily, Error>,
    v: Result<SegmentFamily, ErrorView>,
) -> bool {
    match (r, v) {
        (Ok(a), Ok(b)) => a == b,
        (Err(e), Err(y)) => e@ == y,
        _ => false,
    }
}

fn family(t: IndexType) -> (r: Option<SegmentFamily>)
    ensures
        r == family_of(t),
{
    if t == IndexType::Inverted {
        Some(SegmentFamily::Inverted)
    } else if t.is_vector() {
        Some(SegmentFamily::Vector)
    } else {
        None
    }
}

impl IndexSegmentBuilder {
    pub fn new() -> (r: IndexSegmentBuilder)
        ensures
            r.index_type is None,
            r.segments@.len() == 0,
            r.target_segment_bytes is None,
    {
        IndexSegmentBuilder { index_type: None, segments: Vec::new(), target_segment_bytes: None }
    }

    /// Declare the concrete index type of the staged segments.
    pub fn with_index_type(self, index_type: IndexType) -> (r: Self)
        ensures
            r == (IndexSegmentBuilder { index_type: Some(index_type), ..self }),
    {
        IndexSegmentBuilder { index_type: Some(index_type), ..self }
    }

    /// Provide the records of the segments.
    pub fn with_segments(self, segments: Vec<IndexMetadata>) -> (r: Self)
        ensures
            r == (IndexSegmentBuilder { segments, ..self }),
    {
        IndexSegmentBuilder { segments, ..self }
    }

    /// Set the target size, in bytes, for merged physical segments.
    pub fn with_target_segment_bytes(self, bytes: u64) -> (r: Self)
        ensures
            r == (IndexSegmentBuilder { target_segment_bytes: Some(bytes), ..self }),
    {
        IndexSegmentBuilder { target_segment_bytes: Some(bytes), ..self }
    }

    /// Who plans how the segments are grouped. There has to be a segment and a
    /// type, no UUID may come twice, and the type has to be one with segments.
    /// `shown_type` is the index type as errors show it.
    pub fn plan(&self, shown_type: &str) -> (r: Result<SegmentFamily, Error>)
        ensures
            family_is(r, planning(*self, shown_type@)),
    {
        if self.segments.len() == 0 {
            return Err(
                ErrorOf::InvalidInput {
                    message:
                        "IndexSegmentBuilder requires at least one segment; call with_segments(...) with execute_uncommitted() outputs"
                        .to_owned(),
                },
            );
        }
        let index_type = match self.index_type {
            Some(t) => t,
            None => {
                return Err(
                    ErrorOf::InvalidInput {
                        message:
                            "IndexSegmentBuilder requires an explicit index type; call with_index_type(...)"
                            .to_owned(),
                    },
                );
            },
        };
        let n = self.segments.len();
        let ghost p = repeats(self.segments@);
        for i in 0..n
            invariant
                n == self.segments@.len(),
                n > 0,
                self.index_type == Some(index_type),
                p == repeats(self.segments@),
                forall|j: int| 0 <= j < i ==> !(#[trigger] p(j)),
        {
            for j in 0..i
                invariant
                    i < n,
                    n == self.segments@.len(),
                    n > 0,
                    self.index_type == Some(index_type),
                    p == repeats(self.segments@),
                    forall|j: int| 0 <= j < i ==> !(#[trigger] p(j)),
                    forall|l: int|
                        0 <= l < j ==> (#[trigger] self.segments@[l]).uuid
                            != self.segments@[i as int].uuid,
            {
                if self.segments[j].uuid == self.segments[i].uuid {
                    proof {
                        assert(self.segments@[j as int].uuid == self.segments@[i as int].uuid);
                        assert(p(i as int));
                        crate::first::first_where_found(n as nat, p, i as int);
                    }
                    return Err(
                        ErrorOf::InvalidInput {
                            message: concat2(
                                "IndexSegmentBuilder received duplicate segment uuid ",
                                uuid_to_text(self.segments[i].uuid).as_str(),
                            ),
                        },
                    );
                }
            }
            assert(!p(i as int));
        }
        proof {
            crate::first::first_where_absent(n as nat, p);
        }
        match family(index_type) {
            Some(f) => Ok(f),
            None => Err(
                ErrorOf::InvalidInput {
                    message: concat2(
                        "IndexSegmentBuilder does not support planning segments for index type ",
                        shown_type,
                    ),
                },
            ),
        }
    }

    /// Who builds a planned segment of the requested type.
    pub fn build(requested_index_type: Option<IndexType>, shown_type: &str) -> (r: Result<
        SegmentFamily,
        Error,
    >)
        ensures
            family_is(r, building(requested_index_type, shown_type@)),
    {
        match requested_index_type {
            None => Err(
                ErrorOf::InvalidInput {
                    message:
                        "IndexSegmentBuilder requires planned segments to declare an index type"
                        .to_owned(),
                },
            ),
            Some(t) => match family(t) {
                Some(f) => Ok(f),
                None => Err(
                    ErrorOf::InvalidInput {
                        message: concat2(
                            "IndexSegmentBuilder does not support building segments for index type ",
                            shown_type,
                        ),
                    },
                ),
            },
        }
    }
}

/// Segments that can be planned can be built: both go to the same family.
pub proof fn planned_segments_build(b: IndexSegmentBuilder, shown_type: Seq<char>)
    requires
        planning(b, shown_type) is Ok,
    ensures
        building(b.index_type, shown_type) == planning(b, shown_type),
{
}

/// A generated name never stands against an existing index on other fields:
/// creating an index without a name fails on its name only where the same
/// fields have an index of that name already and it is not to be replaced.
pub proof fn generated_name_is_usable(
    columns: Seq<Seq<char>>,
    field_ids: Seq<i32>,
    indices: Seq<IndexMetadata>,
)
    ensures
        !is_taken(indices, generated_name(columns, field_ids, indices), field_ids),
        name_defect(
            generated_name(columns, field_ids, indices),
            field_ids,
            indices,
            true,
        ) is None,
{
    let base = base_name(columns);
    some_candidate_is_free(indices, base, field_ids);
    let free = is_free(indices, base, field_ids);
    crate::first::first_where_spec(indices.len() + 1, free);
    let k = choose|k: int| 0 <= k <= indices.len() && #[trigger] free(k);
    assert(crate::first::first_where(indices.len() + 1, free) is Some);
    assert(free(crate::first::first_where(indices.len() + 1, free)->0));
}

/// The indices that are not at the given positions, in order.
pub open spec fn kept_indices(indices: Seq<IndexMetadata>, removed: Seq<usize>) -> Seq<
    IndexMetadata,
>
    decreases indices.len(),
{
    if indices.len() == 0 {
        Seq::empty()
    } else {
        let rest = kept_indices(indices.drop_last(), removed);
        if removed.contains((indices.len() - 1) as usize) {
            rest
        } else {
            rest.push(indices.last())
        }
    }
}

/// The indices of a dataset after a commit.
pub open spec fn after_commit(
    indices: Seq<IndexMetadata>,
    transaction: CreateIndexTransaction,
) -> Seq<IndexMetadata> {
    kept_indices(indices, transaction.removed_indices@) + transaction.new_indices@
}

/// The positions of the indices with a name are those where the name stands.
proof fn positions_named_are(indices: Seq<IndexMetadata>, name: Seq<char>, i: int)
    requires
        0 <= i < indices.len() <= usize::MAX,
    ensures
        positions_named(indices, name).contains(i as usize) <==> named(indices[i], name),
        forall|k: int|
            0 <= k < positions_named(indices, name).len() ==> (#[trigger] positions_named(
                indices,
                name,
            )[k]) < indices.len(),
    decreases indices.len(),
{
    let before = indices.drop_last();
    let rest = positions_named(before, name);
    let all = positions_named(indices, name);
    if before.len() > 0 {
        let j = if i < before.len() {
            i
        } else {
            0
        };
        positions_named_are(before, name, j);
    }
    if i < before.len() {
        assert(before[i] == indices[i]);
        if rest.contains(i as usize) {
            let k = choose|k: int| 0 <= k < rest.len() && rest[k] == i as usize;
            assert(all[k] == i as usize);
        }
        if all.contains(i as usize) {
            let k = choose|k: int| 0 <= k < all.len() && all[k] == i as usize;
            if k < rest.len() {
                assert(rest[k] == i as usize);
            }
        }
    } else {
        if named(indices.last(), name) {
            assert(all[rest.len() as int] == i as usize);
        } else if all.contains(i as usize) {
            let k = choose|k: int| 0 <= k < all.len() && all[k] == i as usize;
            assert(rest[k] < before.len());
        }
    }
}

/// Every kept index is one that was there at a position that was not removed,
/// and the other way round.
proof fn kept_indices_are(indices: Seq<IndexMetadata>, removed: Seq<usize>)
    requires
        indices.len() <= usize::MAX,
    ensures
        forall|k: int|
            0 <= k < kept_indices(indices, removed).len() ==> exists|i: int|
                0 <= i < indices.len() && !removed.contains(i as usize)
                    && #[trigger] kept_indices(indices, removed)[k] == #[trigger] indices[i],
        forall|i: int|
            0 <= i < indices.len() && !removed.contains(i as usize) ==> kept_indices(
                indices,
                removed,
            ).contains(#[trigger] indices[i]),
    decreases indices.len(),
{
    if indices.len() > 0 {
        let before = indices.drop_last();
        let rest = kept_indices(before, removed);
        let all = kept_indices(indices, removed);
        let last = indices.len() - 1;
        kept_indices_are(before, removed);
        assert forall|k: int| 0 <= k < all.len() implies exists|i: int|
            0 <= i < indices.len() && !removed.contains(i as usize) && #[trigger] all[k]
                == #[trigger] indices[i] by {
            if k < rest.len() {
                let i = choose|i: int|
                    0 <= i < before.len() && !removed.contains(i as usize) && rest[k]
                        == #[trigger] before[i];
                assert(all[k] == indices[i]);
            } else {
                assert(all[k] == indices[last]);
            }
        }
        assert forall|i: int|
            0 <= i < indices.len() && !removed.contains(i as usize) implies all.contains(
            #[trigger] indices[i],
        ) by {
            if i < last {
                assert(before[i] == indices[i]);
                let k = choose|k: int| 0 <= k < rest.len() && rest[k] == before[i];
                assert(all[k] == indices[i]);
            } else {
                assert(all[rest.len() as int] == indices[i]);
            }
        }
    }
}

/// A replacement leaves exactly one index of the name: the new one, after which
/// nothing else comes. All indices of other names stay, and nothing is added.
pub proof fn replacement_leaves_one(
    indices: Seq<IndexMetadata>,
    new_index: IndexMetadata,
    transaction: CreateIndexTransaction,
)
    requires
        indices.len() <= usize::MAX,
        transaction.new_indices@ == seq![new_index],
        transaction.removed_indices@ == positions_named(indices, new_index.name@),
    ensures
        ({
            let after = after_commit(indices, transaction);
            let name = new_index.name@;
            &&& after.len() > 0
            &&& after.last() == new_index
            &&& forall|k: int|
                0 <= k < after.len() ==> (named(#[trigger] after[k], name) <==> k == after.len()
                    - 1)
            &&& forall|i: int|
                0 <= i < indices.len() && !named(#[trigger] indices[i], name) ==> after.contains(
                    indices[i],
                )
            &&& forall|k: int|
                0 <= k < after.len() - 1 ==> indices.contains(#[trigger] after[k])
        }),
{
    let name = new_index.name@;
    let removed = positions_named(indices, name);
    let kept = kept_indices(indices, removed);
    let after = after_commit(indices, transaction);
    kept_indices_are(indices, removed);
    assert forall|k: int| 0 <= k < kept.len() implies !named(#[trigger] kept[k], name)
        && indices.contains(kept[k]) by {
        let i = choose|i: int|
            0 <= i < indices.len() && !removed.contains(i as usize) && kept[k]
                == #[trigger] indices[i];
        positions_named_are(indices, name, i);
    }
    assert forall|k: int| 0 <= k < after.len() implies (named(#[trigger] after[k], name) <==> k
        == after.len() - 1) by {
        if k < kept.len() {
            assert(after[k] == kept[k]);
        }
    }
    assert forall|i: int|
        0 <= i < indices.len() && !named(#[trigger] indices[i], name) implies after.contains(
        indices[i],
    ) by {
        positions_named_are(indices, name, i);
        let k = choose|k: int| 0 <= k < kept.len() && kept[k] == indices[i];
        assert(after[k] == indices[i]);
    }
    assert forall|k: int| 0 <= k < after.len() - 1 implies indices.contains(
        #[trigger] after[k],
    ) by {
        assert(after[k] == kept[k]);
    }
}

/// The committed index is the one that was built: where no other index has its
/// id, looking for the id after the commit finds it. The commit carries the
/// properties that the builder was given, whatever was planned in between.
pub proof fn committed_index_is_the_built_one(
    builder: CreateIndexBuilder,
    properties: Vec<(String, String)>,
    planned: Result<IndexPlan, Error>,
    indices: Seq<IndexMetadata>,
    new_index: IndexMetadata,
    transaction: CreateIndexTransaction,
)
    requires
        builder.transaction_properties == Some(properties),
        transaction.transaction_properties == planned_builder(
            builder,
            planned,
        ).transaction_properties,
        transaction.new_indices@ == seq![new_index],
        forall|i: int|
            0 <= i < kept_indices(indices, transaction.removed_indices@).len() ==> (
            #[trigger] kept_indices(indices, transaction.removed_indices@)[i]).uuid
                != new_index.uuid,
    ensures
        transaction.transaction_properties == Some(properties),
        ({
            let after = after_commit(indices, transaction);
            crate::first::first_where(after.len(), has_uuid(after, new_index.uuid))
                matches Some(i) && after[i] == new_index
        }),
{
    let kept = kept_indices(indices, transaction.removed_indices@);
    let after = after_commit(indices, transaction);
    let p = has_uuid(after, new_index.uuid);
    assert forall|j: int| 0 <= j < kept.len() implies !(#[trigger] p(j)) by {
        assert(after[j] == kept[j]);
    }
    assert(after[kept.len() as int] == new_index);
    assert(p(kept.len() as int));
    crate::first::first_where_found(after.len(), p, kept.len() as int);
}

/// The text of some settings, where there are any, is the same on both sides.
pub open spec fn same_settings(a: Option<String>, b: Option<Seq<char>>) -> bool {
    match (a, b) {
        (Some(x), Some(y)) => x@ == y,
        (None, None) => true,
        _ => false,
    }
}

/// A compound index is built with the parameters it was asked for with: their
/// index type and their further settings.
pub proof fn compound_index_keeps_its_parameters(
    b: CreateIndexBuilder,
    p: ScalarIndexParams,
    train: bool,
    has_extension: bool,
    shown_type: Seq<char>,
)
    requires
        b.columns@.len() > 1,
        b.index_type is Scalar || b.index_type is BTree,
        b.params.index_name@ == "__lance_scalar_index"@,
        b.params.kind == ParamsKind::Scalar(p),
    ensures
        match build_decision(b, train, has_extension, shown_type) {
            Ok(BuildActionOf::CompoundBTree { params }) => params.index_type == p.index_type@
                && same_settings(p.params, params.params),
            _ => false,
        },
{
}

/// Parameters that are not those of a scalar index say nothing about a compound
/// one, which has the compound type and no further settings.
pub proof fn compound_index_has_default_parameters(
    b: CreateIndexBuilder,
    train: bool,
    has_extension: bool,
    shown_type: Seq<char>,
)
    requires
        b.columns@.len() > 1,
        b.index_type is Scalar || b.index_type is BTree,
        b.params.index_name@ == "__lance_scalar_index"@,
        !(b.params.kind is Scalar),
    ensures
        match build_decision(b, train, has_extension, shown_type) {
            Ok(BuildActionOf::CompoundBTree { params }) => params.index_type == "compoundbtree"@
                && params.params is None,
            _ => false,
        },
{
}

/// Only scalar indices and B-trees, under the scalar index name, have more than
/// one column, and nothing else makes a compound index.
pub proof fn compound_index_needs_its_type(
    b: CreateIndexBuilder,
    train: bool,
    has_extension: bool,
    shown_type: Seq<char>,
)
    ensures
        b.columns@.len() > 1 ==> (build_decision(b, train, has_extension, shown_type) is Ok <==> (
        b.index_type is Scalar || b.index_type is BTree) && b.params.index_name@
            == "__lance_scalar_index"@),
        match build_decision(b, train, has_extension, shown_type) {
            Ok(BuildActionOf::CompoundBTree { params: _ }) => b.columns@.len() > 1,
            Ok(_) => b.columns@.len() <= 1,
            Err(e) => match e {
                ErrorOf::Index { message: _ } => true,
                _ => false,
            },
        },
{
}

/// On one column a scalar index is built with the parameters it was asked for
/// with, and cannot do without.
pub proof fn scalar_index_keeps_its_parameters(
    b: CreateIndexBuilder,
    train: bool,
    has_extension: bool,
    shown_type: Seq<char>,
)
    requires
        b.columns@.len() <= 1,
        b.index_type is Scalar,
        b.params.index_name@ == "__lance_scalar_index"@,
    ensures
        match (build_decision(b, train, has_extension, shown_type), b.params.kind) {
            (Ok(BuildActionOf::Scalar { params }), ParamsKind::Scalar(p)) => params.index_type
                == p.index_type@ && same_settings(p.params, params.params),
            (Err(_), ParamsKind::Scalar(_)) => false,
            (Err(_), _) => true,
            _ => false,
        },
{
}

/// A scalar index of a type of its own takes the further settings where they
/// are JSON, written compactly, and the type's own otherwise.
pub proof fn builtin_index_takes_json(
    b: CreateIndexBuilder,
    train: bool,
    has_extension: bool,
    shown_type: Seq<char>,
)
    requires
        b.columns@.len() <= 1,
        b.index_type is BTree || b.index_type is Bitmap || b.index_type is LabelList
            || b.index_type is Inverted || b.index_type is NGram || b.index_type is ZoneMap
            || b.index_type is BloomFilter || b.index_type is RTree,
        b.params.index_name@ == "__lance_scalar_index"@,
    ensures
        match (build_decision(b, train, has_extension, shown_type), b.params.kind) {
            (Ok(BuildActionOf::Builtin { json }), ParamsKind::Scalar(p)) => match (p.params, json) {
                (Some(text), Some(shown)) => is_json(text@) && shown == compact_json(text@),
                (Some(text), None) => !is_json(text@),
                (None, j) => j is None,
            },
            (Ok(BuildActionOf::Builtin { json }), _) => json is None,
            _ => false,
        },
{
}

/// A full-text index that is registered under another name than scalar indices
/// are is built with its own parameters.
pub proof fn inverted_index_keeps_its_parameters(
    b: CreateIndexBuilder,
    train: bool,
    has_extension: bool,
    shown_type: Seq<char>,
)
    requires
        b.columns@.len() <= 1,
        b.index_type is Inverted,
        b.params.index_name@ != "__lance_scalar_index"@,
    ensures
        match (build_decision(b, train, has_extension, shown_type), b.params.kind) {
            (Ok(BuildActionOf::Scalar { params }), ParamsKind::Inverted(json)) => params.index_type
                == "inverted"@ && params.params == Some(json@),
            (Err(_), ParamsKind::Inverted(_)) => false,
            (Err(_), _) => true,
            _ => false,
        },
{
}

/// A vector index has no rows where it is not trained, is built in parts where
/// fragments are given, and as a whole otherwise. It takes vector parameters,
/// unless an extension builds it.
pub proof fn vector_index_is_built_by_its_request(
    b: CreateIndexBuilder,
    train: bool,
    has_extension: bool,
    shown_type: Seq<char>,
)
    requires
        b.columns@.len() <= 1,
        b.index_type is Vector || b.index_type is IvfFlat || b.index_type is IvfSq
            || b.index_type is IvfPq || b.index_type is IvfRq || b.index_type is IvfHnswFlat
            || b.index_type is IvfHnswPq || b.index_type is IvfHnswSq,
    ensures
        ({
            let r = build_decision(b, train, has_extension, shown_type);
            if b.params.index_name@ == "__lance_vector_index"@ {
                match r {
                    Ok(BuildActionOf::EmptyVector) => b.params.kind is Vector && !train,
                    Ok(BuildActionOf::DistributedVector) => b.params.kind is Vector && train
                        && b.fragments is Some,
                    Ok(BuildActionOf::Vector) => b.params.kind is Vector && train
                        && b.fragments is None,
                    Ok(_) => false,
                    Err(_) => !(b.params.kind is Vector),
                }
            } else {
                match r {
                    Ok(BuildActionOf::Extension) => b.index_type is Vector && has_extension,
                    Ok(_) => false,
                    Err(_) => !(b.index_type is Vector && has_extension),
                }
            }
        }),
{
}

/// No other request on one column is built: none for a fragment reuse index, and
/// none under a name that the type is not registered under.
pub proof fn other_requests_are_refused(
    b: CreateIndexBuilder,
    train: bool,
    has_extension: bool,
    shown_type: Seq<char>,
)
    requires
        b.columns@.len() <= 1,
        b.index_type is FragmentReuse || (b.params.index_name@ != "__lance_scalar_index"@ && (
        b.index_type is Scalar || b.index_type is BTree || b.index_type is Bitmap
            || b.index_type is LabelList || b.index_type is NGram || b.index_type is ZoneMap
            || b.index_type is BloomFilter || b.index_type is RTree)),
    ensures
        build_decision(b, train, has_extension, shown_type) is Err,
{
}

/// What is built depends on the number of columns, the type, the parameters and
/// whether fragments are given, and on nothing else of the request. Training
/// decides about vector indices only.
pub proof fn other_settings_do_not_matter(
    a: CreateIndexBuilder,
    b: CreateIndexBuilder,
    train: bool,
    has_extension: bool,
    shown_type: Seq<char>,
)
    requires
        a.columns@.len() == b.columns@.len(),
        a.index_type == b.index_type,
        a.params == b.params,
        a.fragments is Some <==> b.fragments is Some,
    ensures
        build_decision(a, train, has_extension, shown_type) == build_decision(
            b,
            train,
            has_extension,
            shown_type,
        ),
        !(a.params.kind is Vector) ==> build_decision(a, true, has_extension, shown_type)
            == build_decision(a, false, has_extension, shown_type),
{
}

/// An action in a contract has the parameters of the action itself.
pub proof fn action_shows_its_parameters(a: BuildAction)
    ensures
        match (a, a@) {
            (
                BuildActionOf::CompoundBTree { params: p },
                BuildActionOf::CompoundBTree { params: q },
            ) => p.index_type@ == q.index_type && same_settings(p.params, q.params),
            (BuildActionOf::Builtin { json: p }, BuildActionOf::Builtin { json: q }) =>
                same_settings(p, q),
            (BuildActionOf::Scalar { params: p }, BuildActionOf::Scalar { params: q }) =>
                p.index_type@ == q.index_type && same_settings(p.params, q.params),
            (BuildActionOf::DistributedVector, BuildActionOf::DistributedVector) => true,
            (BuildActionOf::Vector, BuildActionOf::Vector) => true,
            (BuildActionOf::EmptyVector, BuildActionOf::EmptyVector) => true,
            (BuildActionOf::Extension, BuildActionOf::Extension) => true,
            _ => false,
        },
{
}

/// Every index type but the general scalar one and fragment reuse is either a
/// vector type or a scalar type of its own.
pub proof fn index_types_have_their_kind(t: IndexType)
    ensures
        t.is_vector_type() <==> t is Vector || t is IvfFlat || t is IvfSq || t is IvfPq
            || t is IvfRq || t is IvfHnswFlat || t is IvfHnswPq || t is IvfHnswSq,
        !(t.is_vector_type() && t.is_builtin_scalar()),
        !t.is_vector_type() && !t.is_builtin_scalar() <==> t is Scalar || t is FragmentReuse,
{
}

/// The names of index types differ.
pub proof fn index_types_have_their_names(a: IndexType, b: IndexType)
    ensures
        a.name_text() == b.name_text() ==> a == b,
{
    index_type_name(a);
    index_type_name(b);
}

/// The length, the first letter and the last but one of a type's name.
proof fn index_type_name(t: IndexType)
    ensures
        ({
            let s = t.name_text();
            let n = s.len() as int;
            (n, s[0], s[n - 2]) == (match t {
                IndexType::Scalar => (6int, 'S', 'a'),
                IndexType::BTree => (5int, 'B', 'e'),
                IndexType::Bitmap => (6int, 'B', 'a'),
                IndexType::LabelList => (9int, 'L', 's'),
                IndexType::Inverted => (8int, 'I', 'e'),
                IndexType::NGram => (5int, 'N', 'a'),
                IndexType::FragmentReuse => (13int, 'F', 's'),
                IndexType::ZoneMap => (7int, 'Z', 'a'),
                IndexType::BloomFilter => (11int, 'B', 'e'),
                IndexType::RTree => (5int, 'R', 'e'),
                IndexType::Vector => (6int, 'V', 'o'),
                IndexType::IvfFlat => (7int, 'I', 'a'),
                IndexType::IvfSq => (5int, 'I', 'S'),
                IndexType::IvfPq => (5int, 'I', 'P'),
                IndexType::IvfRq => (5int, 'I', 'R'),
                IndexType::IvfHnswFlat => (11int, 'I', 'a'),
                IndexType::IvfHnswPq => (9int, 'I', 'P'),
                IndexType::IvfHnswSq => (9int, 'I', 'S'),
            })
        }),
{
    match t {
        IndexType::Scalar => reveal_strlit("Scalar"),
        IndexType::BTree => reveal_strlit("BTree"),
        IndexType::Bitmap => reveal_strlit("Bitmap"),
        IndexType::LabelList => reveal_strlit("LabelList"),
        IndexType::Inverted => reveal_strlit("Inverted"),
        IndexType::NGram => reveal_strlit("NGram"),
        IndexType::FragmentReuse => reveal_strlit("FragmentReuse"),
        IndexType::ZoneMap => reveal_strlit("ZoneMap"),
        IndexType::BloomFilter => reveal_strlit("BloomFilter"),
        IndexType::RTree => reveal_strlit("RTree"),
        IndexType::Vector => reveal_strlit("Vector"),
        IndexType::IvfFlat => reveal_strlit("IvfFlat"),
        IndexType::IvfSq => reveal_strlit("IvfSq"),
        IndexType::IvfPq => reveal_strlit("IvfPq"),
        IndexType::IvfRq => reveal_strlit("IvfRq"),
        IndexType::IvfHnswFlat => reveal_strlit("IvfHnswFlat"),
        IndexType::IvfHnswPq => reveal_strlit("IvfHnswPq"),
        IndexType::IvfHnswSq => reveal_strlit("IvfHnswSq"),
    }
}

/// A name is refused exactly where an index has it on other fields, or where any
/// index has it and is not to be replaced.
pub proof fn name_is_refused_where_taken(
    name: Seq<char>,
    field_ids: Seq<i32>,
    indices: Seq<IndexMetadata>,
    replace: bool,
)
    ensures
        name_defect(name, field_ids, indices, replace) is Some <==> exists|i: int|
            0 <= i < indices.len() && (#[trigger] indices[i]).name@ == name && (!replace
                || indices[i].fields@ != field_ids),
        match name_defect(name, field_ids, indices, replace) {
            Some(ErrorOf::Index { message: _ }) => true,
            Some(_) => false,
            None => true,
        },
{
    if exists|i: int|
        0 <= i < indices.len() && (#[trigger] indices[i]).name@ == name && (!replace
            || indices[i].fields@ != field_ids) {
        let i = choose|i: int|
            0 <= i < indices.len() && (#[trigger] indices[i]).name@ == name && (!replace
                || indices[i].fields@ != field_ids);
        if indices[i].fields@ != field_ids {
            assert(conflicts(indices[i], name, field_ids));
        } else {
            assert(named(indices[i], name));
        }
    }
    if is_taken(indices, name, field_ids) {
        let i = choose|i: int|
            0 <= i < indices.len() && #[trigger] conflicts(indices[i], name, field_ids);
        assert(indices[i].name@ == name);
    }
    if exists|i: int| 0 <= i < indices.len() && #[trigger] named(indices[i], name) {
        let i = choose|i: int| 0 <= i < indices.len() && #[trigger] named(indices[i], name);
        assert(indices[i].name@ == name);
    }
}

/// Some index on other fields has the name.
pub open spec fn name_stands_elsewhere(
    indices: Seq<IndexMetadata>,
    name: Seq<char>,
    field_ids: Seq<i32>,
) -> bool {
    exists|i: int|
        0 <= i < indices.len() && (#[trigger] indices[i]).name@ == name && indices[i].fields@
            != field_ids
}

proof fn taken_means_it_stands_elsewhere(
    indices: Seq<IndexMetadata>,
    name: Seq<char>,
    field_ids: Seq<i32>,
)
    ensures
        is_taken(indices, name, field_ids) <==> name_stands_elsewhere(indices, name, field_ids),
{
    if is_taken(indices, name, field_ids) {
        let i = choose|i: int|
            0 <= i < indices.len() && #[trigger] conflicts(indices[i], name, field_ids);
        assert(indices[i].name@ == name);
    }
    if name_stands_elsewhere(indices, name, field_ids) {
        let i = choose|i: int|
            0 <= i < indices.len() && (#[trigger] indices[i]).name@ == name && indices[i].fields@
                != field_ids;
        assert(conflicts(indices[i], name, field_ids));
    }
}

/// A generated name is its base where no index on other fields has that, and
/// else the base with the smallest number from two on that makes it so.
pub proof fn generated_name_is_the_first_free(
    columns: Seq<Seq<char>>,
    field_ids: Seq<i32>,
    indices: Seq<IndexMetadata>,
)
    ensures
        ({
            let base = base_name(columns);
            let name = generated_name(columns, field_ids, indices);
            &&& !name_stands_elsewhere(indices, name, field_ids)
            &&& !name_stands_elsewhere(indices, base, field_ids) ==> name == base
            &&& name_stands_elsewhere(indices, base, field_ids) ==> exists|k: nat|
                2 <= k && name == #[trigger] numbered(base, k) && forall|j: nat|
                    2 <= j < k ==> name_stands_elsewhere(
                        indices,
                        #[trigger] numbered(base, j),
                        field_ids,
                    )
        }),
{
    let base = base_name(columns);
    let name = generated_name(columns, field_ids, indices);
    let free = is_free(indices, base, field_ids);
    some_candidate_is_free(indices, base, field_ids);
    crate::first::first_where_spec(indices.len() + 1, free);
    let f = crate::first::first_where(indices.len() + 1, free)->0;
    assert(free(f));
    taken_means_it_stands_elsewhere(indices, name, field_ids);
    taken_means_it_stands_elsewhere(indices, base, field_ids);
    assert(candidate_name(base, 0) == base);
    if name_stands_elsewhere(indices, base, field_ids) {
        assert(f != 0);
        let k = (f + 1) as nat;
        reveal_strlit("_");
        assert("_"@ =~= seq!['_']);
        assert(name == numbered(base, k));
        assert forall|j: nat| 2 <= j < k implies name_stands_elsewhere(
            indices,
            #[trigger] numbered(base, j),
            field_ids,
        ) by {
            assert(!free(j - 1));
            assert(candidate_name(base, j - 1) == numbered(base, j));
            taken_means_it_stands_elsewhere(indices, numbered(base, j), field_ids);
        }
    } else {
        if f != 0 {
            assert(!free(0));
        }
    }
}

/// A base with a number behind it.
pub open spec fn numbered(base: Seq<char>, k: nat) -> Seq<char> {
    base + seq!['_'] + crate::text::decimal_text(k)
}

/// The base of generated names is made of the columns: a column without a dot
/// itself, or several joined by underscores, and the ending that all have.
pub proof fn base_name_is_made_of_columns(columns: Seq<Seq<char>>, more: Seq<Seq<char>>)
    ensures
        columns.len() == 1 && !columns[0].contains('.') ==> base_name(columns) == columns[0]
            + "_idx"@,
        columns.len() == 1 && columns[0].contains('.') ==> base_name(columns)
            == crate::schema::field_path(columns) + "_idx"@,
        columns.len() > 1 ==> base_name(columns) == crate::text::joined(columns, "_"@) + "_idx"@,
        columns.len() > 0 && more.len() > 0 ==> base_name(columns + more) == crate::text::joined(
            columns,
            "_"@,
        ) + "_"@ + crate::text::joined(more, "_"@) + "_idx"@,
        columns.len() == 1 && more.len() == 1 ==> base_name(columns + more) == columns[0] + "_"@
            + more[0] + "_idx"@,
{
    crate::text::joined_parts(columns, more, "_"@);
    crate::text::joined_parts(more, columns, "_"@);
    crate::text::joined_parts(columns, more, "."@);
    if columns.len() == 1 && columns[0].contains('.') {
        assert(columns[0].contains('.'));
    }
    if columns.len() == 1 && more.len() == 1 {
        assert((columns + more).len() == 2);
    }
}

/// A default name is the path of names: joined by dots where none has a dot
/// itself, in the quoted form otherwise.
pub proof fn default_name_is_the_path(fields: Seq<Seq<char>>, i: int)
    ensures
        0 <= i < fields.len() && fields[i].contains('.') ==> default_name(fields)
            == crate::schema::field_path(fields),
        (forall|j: int| 0 <= j < fields.len() ==> !(#[trigger] fields[j]).contains('.'))
            ==> default_name(fields) == crate::text::joined(fields, "."@),
{
    if 0 <= i < fields.len() && fields[i].contains('.') {
        assert(fields[i].contains('.'));
    }
}

/// Planning fails before anything is decided exactly where the name is refused
/// or the id that was asked for is none; where both hold the name is what it
/// fails on. The name is the one asked for, and a generated one only where none
/// was.
pub proof fn request_is_checked(
    b: CreateIndexBuilder,
    field_ids: Seq<i32>,
    indices: Seq<IndexMetadata>,
)
    ensures
        match b.name {
            Some(n) => b.wanted_name(field_ids, indices) == n@,
            None => b.wanted_name(field_ids, indices) == generated_name(
                crate::text::texts(b.columns@),
                field_ids,
                indices,
            ),
        },
        request_defect(b, field_ids, indices) is Some <==> {
            ||| exists|i: int|
                0 <= i < indices.len() && (#[trigger] indices[i]).name@ == b.wanted_name(
                    field_ids,
                    indices,
                ) && (!b.replace || indices[i].fields@ != field_ids)
            ||| b.index_uuid is Some && parsed_uuid((b.index_uuid->0)@) is Err
        },
        ({
            let name = b.wanted_name(field_ids, indices);
            let refused = name_defect(name, field_ids, indices, b.replace);
            refused is Some ==> request_defect(b, field_ids, indices) == refused
        }),
{
    name_is_refused_where_taken(
        b.wanted_name(field_ids, indices),
        field_ids,
        indices,
        b.replace,
    );
}

/// Planning takes the name out of the request, and the preprocessed data where
/// the plan uses it; all else stays.
pub proof fn planning_keeps_the_request(b: CreateIndexBuilder, r: Result<IndexPlan, Error>)
    ensures
        ({
            let after = planned_builder(b, r);
            &&& after.name is None
            &&& after.columns == b.columns
            &&& after.index_type == b.index_type
            &&& after.params == b.params
            &&& after.replace == b.replace
            &&& after.train == b.train
            &&& after.fragments == b.fragments
            &&& after.index_uuid == b.index_uuid
            &&& after.transaction_properties == b.transaction_properties
            &&& after.mem_pool_size == b.mem_pool_size
            &&& match r {
                Ok(plan) => after.has_preprocessed_data <==> b.has_preprocessed_data
                    && !plan.preprocessed,
                Err(_) => after.has_preprocessed_data == b.has_preprocessed_data,
            }
        }),
{
}

/// A plan has the name that was wanted and the id that was asked for, trains as
/// it was told, does what the request decides, and takes the preprocessed data
/// for a scalar index of a type of its own only. There is a plan exactly where
/// nothing stands against the request and something can be built.
pub proof fn plan_is_what_was_asked_for(
    r: Result<IndexPlan, Error>,
    b: CreateIndexBuilder,
    field_ids: Seq<i32>,
    train: bool,
    indices: Seq<IndexMetadata>,
    has_extension: bool,
    shown_type: Seq<char>,
)
    requires
        is_plan(r, b, field_ids, train, indices, has_extension, shown_type),
    ensures
        r is Ok <==> request_defect(b, field_ids, indices) is None && build_decision(
            b,
            train,
            has_extension,
            shown_type,
        ) is Ok,
        match r {
            Ok(plan) => {
                &&& plan.train == train
                &&& plan.name@ == b.wanted_name(field_ids, indices)
                &&& Ok::<BuildActionOf<Seq<char>>, ErrorView>(plan.action@) == build_decision(
                    b,
                    train,
                    has_extension,
                    shown_type,
                )
                &&& plan.preprocessed <==> b.has_preprocessed_data && plan.action is Builtin
                &&& b.index_uuid is Some ==> parsed_uuid((b.index_uuid->0)@) == Ok::<
                    u128,
                    Seq<char>,
                >(plan.uuid)
            },
            Err(e) => match request_defect(b, field_ids, indices) {
                Some(d) => e@ == d,
                None => build_decision(b, train, has_extension, shown_type) == Err::<
                    BuildActionOf<Seq<char>>,
                    ErrorView,
                >(e@),
            },
        },
{
}

/// The positions of the indices with a name are, in order, those where it
/// stands.
pub proof fn positions_are_those_of_the_name(indices: Seq<IndexMetadata>, name: Seq<char>)
    requires
        indices.len() <= usize::MAX,
    ensures
        ({
            let found = positions_named(indices, name);
            &&& forall|i: int|
                0 <= i < indices.len() ==> ((#[trigger] indices[i]).name@ == name
                    <==> found.contains(i as usize))
            &&& forall|k: int| 0 <= k < found.len() ==> (#[trigger] found[k]) < indices.len()
            &&& forall|k: int, l: int|
                0 <= k < l < found.len() ==> (#[trigger] found[k]) < (#[trigger] found[l])
        }),
    decreases indices.len(),
{
    if indices.len() > 0 {
        positions_are_those_of_the_name(indices.drop_last(), name);
        positions_named_are(indices, name, 0);
    }
    let found = positions_named(indices, name);
    assert forall|k: int, l: int| 0 <= k < l < found.len() implies (#[trigger] found[k]) < (
    #[trigger] found[l]) by {
        let rest = positions_named(indices.drop_last(), name);
        assert(rest[k] == found[k]);
        if l < rest.len() {
            assert(rest[l] == found[l]);
        }
    }
    assert forall|i: int| 0 <= i < indices.len() implies ((#[trigger] indices[i]).name@ == name
        <==> found.contains(i as usize)) by {
        positions_named_are(indices, name, i);
    }
}

/// A commit that removes nothing adds its indices behind those that are there.
pub proof fn commit_adds_behind(
    indices: Seq<IndexMetadata>,
    transaction: CreateIndexTransaction,
)
    requires
        transaction.removed_indices@.len() == 0,
    ensures
        after_commit(indices, transaction) == indices + transaction.new_indices@,
    decreases indices.len(),
{
    if indices.len() > 0 {
        commit_adds_behind(indices.drop_last(), transaction);
        let removed = transaction.removed_indices@;
        let before = indices.drop_last();
        assert(kept_indices(before, removed) =~= before) by {
            let a = kept_indices(before, removed);
            let n = transaction.new_indices@;
            assert((a + n).len() == (before + n).len());
            assert forall|i: int| 0 <= i < a.len() implies a[i] == before[i] by {
                assert((a + n)[i] == (before + n)[i]);
            }
        }
        assert(kept_indices(indices, removed) =~= indices);
    }
}

/// An id is found at the first index that has it, and where none does, nowhere.
pub proof fn ids_are_found_first(indices: Seq<IndexMetadata>, uuid: u128)
    ensures
        match crate::first::first_where(indices.len(), has_uuid(indices, uuid)) {
            Some(i) => 0 <= i < indices.len() && indices[i].uuid == uuid && forall|j: int|
                0 <= j < i ==> (#[trigger] indices[j]).uuid != uuid,
            None => forall|j: int|
                0 <= j < indices.len() ==> (#[trigger] indices[j]).uuid != uuid,
        },
{
    let p = has_uuid(indices, uuid);
    crate::first::first_where_spec(indices.len(), p);
    assert forall|j: int| 0 <= j < indices.len() implies ((#[trigger] indices[j]).uuid == uuid
        <==> p(j)) by {}
}

/// Segments are planned exactly where there are some, their type is given and
/// has segments, and no two have the same id. Those of a full-text index go to
/// its family, those of a vector index to the other.
pub proof fn segments_are_planned_by_type(b: IndexSegmentBuilder, shown_type: Seq<char>)
    ensures
        planning(b, shown_type) is Ok <==> {
            &&& b.segments@.len() > 0
            &&& b.index_type is Some
            &&& forall|i: int, j: int|
                0 <= j < i < b.segments@.len() ==> (#[trigger] b.segments@[i]).uuid != (
                #[trigger] b.segments@[j]).uuid
            &&& b.index_type->0 is Inverted || (b.index_type->0).is_vector_type()
        },
        match planning(b, shown_type) {
            Ok(SegmentFamily::Inverted) => b.index_type == Some(IndexType::Inverted),
            Ok(SegmentFamily::Vector) => b.index_type is Some && (
            b.index_type->0).is_vector_type(),
            Err(ErrorOf::InvalidInput { message: _ }) => true,
            Err(_) => false,
        },
{
    let s = b.segments@;
    let p = repeats(s);
    crate::first::first_where_spec(s.len(), p);
    match crate::first::first_where(s.len(), p) {
        Some(i) => {
            assert(p(i));
            let j = choose|j: int| 0 <= j < i && (#[trigger] s[j]).uuid == s[i].uuid;
            assert(s[i].uuid == s[j].uuid);
        },
        None => {
            assert forall|i: int, j: int| 0 <= j < i < s.len() implies (#[trigger] s[i]).uuid != (
            #[trigger] s[j]).uuid by {
                assert(!p(i));
            }
        },
    }
}

/// A planned segment is built exactly where its type is given and has segments.
pub proof fn segments_are_built_by_type(requested: Option<IndexType>, shown_type: Seq<char>)
    ensures
        match (building(requested, shown_type), requested) {
            (Ok(SegmentFamily::Inverted), Some(t)) => t is Inverted,
            (Ok(SegmentFamily::Vector), Some(t)) => t.is_vector_type(),
            (Err(ErrorOf::InvalidInput { message: _ }), Some(t)) => !(t is Inverted)
                && !t.is_vector_type(),
            (Err(ErrorOf::InvalidInput { message: _ }), None) => true,
            _ => false,
        },
{
}

/// Columns can be indexed exactly where there are one to eight and all of them
/// exist.
pub proof fn columns_must_exist(columns: Seq<Seq<char>>, found: Seq<Option<ResolvedView>>)
    requires
        columns.len() == found.len(),
    ensures
        columns_defect(columns, found) is None <==> 1 <= columns.len() <= 8 && forall|i: int|
            0 <= i < found.len() ==> (#[trigger] found[i]) is Some,
        match columns_defect(columns, found) {
            Some(ErrorOf::Index { message: _ }) => true,
            Some(_) => false,
            None => true,
        },
{
    let p = is_unresolved(found);
    crate::first::first_where_spec(columns.len(), p);
    assert forall|i: int| 0 <= i < found.len() implies ((#[trigger] found[i]) is None <==> p(
        i,
    )) by {}
    if let Some(i) = crate::first::first_where(columns.len(), p) {
        assert(found[i] is None);
    }
}

/// Valid columns come with the field, the path and the id that each was found to
/// have, in order.
pub proof fn validated_columns_are_those_found(
    columns: Seq<Seq<char>>,
    found: Seq<Option<ResolvedView>>,
    v: ValidatedColumns,
    i: int,
)
    requires
        columns.len() == found.len(),
        validates(columns, found, Ok(v)),
        0 <= i < columns.len(),
    ensures
        v.fields@.len() == columns.len(),
        v.corrected_columns@.len() == columns.len(),
        v.field_ids@.len() == columns.len(),
        found[i] is Some,
        v.field_ids@[i] == (found[i]->0).field_id,
        v.fields@[i]@.path == (found[i]->0).path,
        v.fields@[i]@.field_id == (found[i]->0).field_id,
        v.corrected_columns@[i]@ == crate::schema::field_path((found[i]->0).path),
{
    columns_must_exist(columns, found);
    assert(v.corrected_columns@[i]@ == crate::schema::field_path((found[i]->0).path));
}

/// An index is committed through its segments exactly where it is a vector index
/// under the vector index name with vector parameters; it then needs a field,
/// and goes by the first one and the type that the parameters give.
pub proof fn commit_goes_by_the_index(
    b: &CreateIndexBuilder,
    name: &str,
    fields: &Vec<i32>,
    r: Result<CommitPath, Error>,
)
    requires
        call_ensures(CreateIndexBuilder::commit_path, (b, name, fields), r),
    ensures
        match (b.params.kind, r) {
            (ParamsKind::Vector(t), Ok(CommitPath::Segments { field_id, index_type })) => {
                &&& name@ == "__lance_vector_index"@
                &&& b.index_type.is_vector_type()
                &&& fields@.len() > 0
                &&& field_id == fields@[0]
                &&& index_type == t
            },
            (ParamsKind::Vector(_), Ok(CommitPath::Direct)) => name@ != "__lance_vector_index"@
                || !b.index_type.is_vector_type(),
            (ParamsKind::Vector(_), Err(_)) => fields@.len() == 0,
            (_, Ok(CommitPath::Direct)) => true,
            _ => false,
        },
{
}

/// What is built for a compound index has the parameters it was asked for with.
pub proof fn built_compound_index_has_its_parameters(
    b: &CreateIndexBuilder,
    p: ScalarIndexParams,
    train: bool,
    has_extension: bool,
    shown_type: &str,
    r: Result<BuildAction, Error>,
)
    requires
        b.columns@.len() > 1,
        b.index_type is Scalar || b.index_type is BTree,
        b.params.index_name@ == "__lance_scalar_index"@,
        b.params.kind == ParamsKind::Scalar(p),
        call_ensures(
            CreateIndexBuilder::build_action,
            (b, train, has_extension, shown_type),
            r,
        ),
    ensures
        match r {
            Ok(BuildActionOf::CompoundBTree { params: q }) => q.index_type@ == p.index_type@ && (
            match (q.params, p.params) {
                (Some(x), Some(y)) => x@ == y@,
                (None, None) => true,
                _ => false,
            }),
            _ => false,
        },
{
    compound_index_keeps_its_parameters(*b, p, train, has_extension, shown_type@);
    if let Ok(a) = r {
        action_shows_its_parameters(a);
    }
}

/// A new index takes its name only where no index on other fields has it, and
/// where an index has it at all only to replace that one. A name that was asked
/// for is not changed.
pub proof fn resolved_name_is_free(
    b: &CreateIndexBuilder,
    field_ids: &Vec<i32>,
    indices: &Vec<IndexMetadata>,
    r: Result<String, Error>,
    i: int,
)
    requires
        call_ensures(CreateIndexBuilder::resolve_name, (b, field_ids, indices), r),
        0 <= i < indices@.len(),
    ensures
        match r {
            Ok(n) => {
                &&& indices@[i].name@ == n@ ==> indices@[i].fields@ == field_ids@ && b.replace
                &&& match b.name {
                    Some(asked) => n@ == asked@,
                    None => true,
                }
            },
            Err(_) => true,
        },
        b.name is None && b.replace ==> r is Ok,
{
    let name = b.wanted_name(field_ids@, indices@);
    name_is_refused_where_taken(name, field_ids@, indices@, b.replace);
    generated_name_is_usable(crate::text::texts(b.columns@), field_ids@, indices@);
    if indices@[i].name@ == name && (!b.replace || indices@[i].fields@ != field_ids@) {
        assert(indices@[i].name@ == name);
    }
}

/// A replacement removes the indices of its name and no others; without one
/// nothing is removed.
pub proof fn replacement_removes_the_name(
    b: &CreateIndexBuilder,
    name: &str,
    indices: &Vec<IndexMetadata>,
    r: Vec<usize>,
    i: int,
)
    requires
        call_ensures(CreateIndexBuilder::removed_indices, (b, name, indices), r),
        0 <= i < indices@.len() <= usize::MAX,
    ensures
        r@.contains(i as usize) <==> b.replace && indices@[i].name@ == name@,
{
    positions_are_those_of_the_name(indices@, name@);
    assert(indices@[i].name@ == name@ <==> positions_named(indices@, name@).contains(i as usize));
}

/// An index covers, once trained, the fragments it was asked for or, without
/// any, all of the dataset; untrained it covers none. Its id is that of the plan,
/// but for a distributed vector index that was built as a segment.
pub proof fn record_covers_what_was_trained(
    b: &CreateIndexBuilder,
    plan: IndexPlan,
    field_ids: Vec<i32>,
    dataset_version: u64,
    dataset_fragments: RoaringBitmap,
    built: BuiltIndex,
    created_at: Timestamp,
    r: IndexMetadata,
    fragment: u32,
)
    requires
        call_ensures(
            CreateIndexBuilder::index_metadata,
            (b, plan, field_ids, dataset_version, dataset_fragments, built, created_at),
            r,
        ),
    ensures
        match r.fragment_bitmap {
            Some(m) => crate::row_set::bits(m).contains(fragment) <==> plan.train && (
            match b.fragments {
                Some(ids) => ids@.contains(fragment),
                None => crate::row_set::bits(dataset_fragments).contains(fragment),
            }),
            None => false,
        },
        match (plan.action, built.segment_uuid) {
            (BuildActionOf::DistributedVector, Some(segment)) => r.uuid == segment,
            _ => r.uuid == plan.uuid,
        },
        r.name@ == plan.name@,
        r.fields@ == field_ids@,
        r.dataset_version == dataset_version,
{
    if let Some(ids) = b.fragments {
        numbers_contains(ids@, fragment);
    }
}

/// After a commit the index is found by its id, or not at all.
pub proof fn committed_index_has_the_id(
    indices: &Vec<IndexMetadata>,
    uuid: u128,
    r: Result<usize, Error>,
    i: int,
)
    requires
        call_ensures(find_committed, (indices, uuid), r),
        0 <= i < indices@.len(),
    ensures
        match r {
            Ok(k) => k < indices@.len() && indices@[k as int].uuid == uuid && (i < k
                ==> indices@[i].uuid != uuid),
            Err(_) => indices@[i].uuid != uuid,
        },
{
    ids_are_found_first(indices@, uuid);
    if let Ok(k) = r {
        let f = crate::first::first_where(indices@.len(), has_uuid(indices@, uuid))->0;
        assert(f < indices.len());
        assert(k as int == f);
    }
}

/// A request on one column is not served exactly where preprocessed data comes
/// for a scalar index of a type of its own that is no B-tree, or where an
/// extension would build without training.
pub proof fn unserved_requests(b: CreateIndexBuilder, train: bool, has_extension: bool)
    ensures
        b.columns@.len() > 1 ==> !unserved(b, train, has_extension),
        b.columns@.len() <= 1 && b.params.index_name@ == "__lance_scalar_index"@ && (
        b.index_type is Bitmap || b.index_type is LabelList || b.index_type is Inverted
            || b.index_type is NGram || b.index_type is ZoneMap || b.index_type is BloomFilter
            || b.index_type is RTree) ==> (unserved(b, train, has_extension)
            <==> b.has_preprocessed_data),
        b.columns@.len() <= 1 && b.index_type is Vector && b.params.index_name@
            != "__lance_vector_index"@ ==> (unserved(b, train, has_extension) <==> !train
            && has_extension),
        unserved(b, train, has_extension) ==> b.index_type is Vector || (b.params.index_name@
            == "__lance_scalar_index"@ && b.index_type.is_builtin_scalar() && !(
        b.index_type is BTree)),
        b.index_type is Vector && b.params.index_name@ == "__lance_vector_index"@ ==> !unserved(
            b,
            train,
            has_extension,
        ),
{
}

/// A refused request says why: the type that cannot have several columns, the
/// parameters that the type needs, or the type and the name that do not go
/// together.
pub proof fn refusals_say_why(
    b: CreateIndexBuilder,
    train: bool,
    has_extension: bool,
    shown_type: Seq<char>,
)
    requires
        build_decision(b, train, has_extension, shown_type) is Err,
    ensures
        ({
            let t = b.index_type;
            let name = b.params.index_name@;
            let said = match build_decision(b, train, has_extension, shown_type) {
                Err(ErrorOf::Index { message }) => message,
                _ => Seq::empty(),
            };
            &&& b.columns@.len() > 1 ==> said == "Index type "@ + t.name_text()
                + " does not support multiple columns. Use BTree or Scalar for compound indices."@
            &&& b.columns@.len() <= 1 && t is Scalar && name == "__lance_scalar_index"@ ==> said
                == "Scalar index type must take a ScalarIndexParams"@
            &&& b.columns@.len() <= 1 && t is Inverted ==> said
                == "Inverted index type must take a InvertedIndexParams"@
            &&& b.columns@.len() <= 1 && t.is_vector_type() && name == "__lance_vector_index"@
                ==> said == "Vector index type must take a VectorIndexParams"@
            &&& b.columns@.len() <= 1 && t is FragmentReuse ==> said
                == "Fragment reuse index can only be created through compaction"@
            &&& b.columns@.len() <= 1 && t.is_vector_type() && name != "__lance_vector_index"@
                ==> said == "Index type "@ + shown_type + " with name "@ + name
                + " is not supported"@
            &&& b.columns@.len() <= 1 && (t is Scalar || (t.is_builtin_scalar() && !(
            t is Inverted))) && name != "__lance_scalar_index"@ ==> said == "Index type "@
                + shown_type + " with name "@ + name + " is not supported"@
        }),
{
}

/// A refused name or id is named: a name on other fields as such, any other as
/// one that could be replaced.
pub proof fn refused_names_are_named(
    b: CreateIndexBuilder,
    name: Seq<char>,
    field_ids: Seq<i32>,
    indices: Seq<IndexMetadata>,
    replace: bool,
    i: int,
)
    requires
        0 <= i < indices.len(),
        indices[i].name@ == name,
    ensures
        indices[i].fields@ != field_ids ==> name_defect(name, field_ids, indices, replace) == Some(
            ErrorOf::Index {
                message: "Index name '"@ + name
                    + "' already exists with different fields, please specify a different name"@,
            },
        ),
        !replace && (forall|j: int|
            0 <= j < indices.len() && (#[trigger] indices[j]).name@ == name ==> indices[j].fields@
                == field_ids) ==> name_defect(name, field_ids, indices, replace) == Some(
            ErrorOf::Index {
                message: "Index name '"@ + name
                    + "' already exists, please specify a different name or use replace=True"@,
            },
        ),
        match b.index_uuid {
            Some(text) => match parsed_uuid(text@) {
                Err(e) => b.uuid_defect() == Some(
                    ErrorOf::Index { message: "Invalid UUID string provided: "@ + e },
                ),
                Ok(_) => b.uuid_defect() is None,
            },
            None => b.uuid_defect() is None,
        },
{
    taken_means_it_stands_elsewhere(indices, name, field_ids);
    if indices[i].fields@ != field_ids {
        assert(indices[i].name@ == name);
    }
    assert(named(indices[i], name));
}

/// Columns that cannot be indexed are refused for their number, or by the first
/// of them that does not exist.
pub proof fn refused_columns_are_named(
    columns: Seq<Seq<char>>,
    found: Seq<Option<ResolvedView>>,
    i: int,
)
    requires
        columns.len() == found.len(),
    ensures
        columns.len() == 0 ==> columns_defect(columns, found) == Some(
            ErrorOf::Index { message: "Index must have at least one column"@ },
        ),
        columns.len() > 8 ==> columns_defect(columns, found) == Some(
            ErrorOf::Index {
                message: "Compound index exceeds maximum of 8 columns (got "@
                    + crate::text::decimal_text(columns.len()) + ")"@,
            },
        ),
        columns.len() <= 8 && 0 <= i < columns.len() && found[i] is None && (forall|j: int|
            0 <= j < i ==> (#[trigger] found[j]) is Some) ==> columns_defect(columns, found)
            == Some(
            ErrorOf::Index { message: "CreateIndex: column '"@ + columns[i] + "' does not exist"@ },
        ),
{
    let p = is_unresolved(found);
    if 0 <= i < columns.len() && found[i] is None && (forall|j: int|
        0 <= j < i ==> (#[trigger] found[j]) is Some) {
        assert(p(i));
        assert forall|j: int| 0 <= j < i implies !(#[trigger] p(j)) by {
            assert(found[j] is Some);
        }
        crate::first::first_where_found(columns.len(), p, i);
    }
}

/// Segments that repeat an id are refused by the first id that repeats.
pub proof fn repeated_segments_are_named(
    b: IndexSegmentBuilder,
    shown_type: Seq<char>,
    i: int,
    j: int,
)
    requires
        b.index_type is Some,
        0 <= j < i < b.segments@.len(),
        b.segments@[j].uuid == b.segments@[i].uuid,
        forall|k: int, l: int|
            0 <= l < k < i ==> (#[trigger] b.segments@[k]).uuid != (
            #[trigger] b.segments@[l]).uuid,
    ensures
        planning(b, shown_type) == Err::<SegmentFamily, ErrorView>(
            ErrorOf::InvalidInput {
                message: "IndexSegmentBuilder received duplicate segment uuid "@ + uuid_text(
                    b.segments@[i].uuid,
                ),
            },
        ),
{
    let s = b.segments@;
    let p = repeats(s);
    assert(s[j].uuid == s[i].uuid);
    assert(p(i));
    assert forall|k: int| 0 <= k < i implies !(#[trigger] p(k)) by {
        if p(k) {
            let l = choose|l: int| 0 <= l < k && (#[trigger] s[l]).uuid == s[k].uuid;
            assert(s[k].uuid != s[l].uuid);
        }
    }
    crate::first::first_where_found(s.len(), p, i);
}

/// The plan of segments, as the builder gives it, goes to the family of the type
/// asked for, and so does building a segment.
pub proof fn segments_go_to_their_family(
    b: &IndexSegmentBuilder,
    requested: Option<IndexType>,
    shown_type: &str,
    planned: Result<SegmentFamily, Error>,
    built: Result<SegmentFamily, Error>,
)
    requires
        call_ensures(IndexSegmentBuilder::plan, (b, shown_type), planned),
        call_ensures(IndexSegmentBuilder::build, (requested, shown_type), built),
    ensures
        match planned {
            Ok(SegmentFamily::Inverted) => b.index_type == Some(IndexType::Inverted)
                && b.segments@.len() > 0,
            Ok(SegmentFamily::Vector) => b.index_type is Some && (b.index_type->0).is_vector_type()
                && b.segments@.len() > 0,
            Err(_) => true,
        },
        match built {
            Ok(SegmentFamily::Inverted) => requested == Some(IndexType::Inverted),
            Ok(SegmentFamily::Vector) => requested is Some && (requested->0).is_vector_type(),
            Err(_) => requested is None || (!((requested->0) is Inverted) && !(
            requested->0).is_vector_type()),
        },
{
}

/// Training takes rows and the wish for it. A commit goes through segments where
/// an index uses that path and has a field, and only there. A generated name
/// stands for no other fields.
pub proof fn small_decisions_agree(
    b: &CreateIndexBuilder,
    row_count: usize,
    name: &str,
    fields: &Vec<i32>,
    indices: &Vec<IndexMetadata>,
    train: bool,
    segments: bool,
    path: Result<CommitPath, Error>,
    generated: String,
)
    requires
        call_ensures(CreateIndexBuilder::effective_train, (b, row_count), train),
        call_ensures(uses_segment_commit_path, (b.index_type, name, &b.params), segments),
        call_ensures(CreateIndexBuilder::commit_path, (b, name, fields), path),
        call_ensures(generate_index_name, (&b.columns, fields, indices), generated),
    ensures
        row_count == 0 ==> !train,
        row_count > 0 ==> train == b.train,
        segments == (b.params.kind is Vector && name@ == "__lance_vector_index"@
            && b.index_type.is_vector_type()),
        match path {
            Ok(CommitPath::Direct) => !segments,
            Ok(CommitPath::Segments { field_id: _, index_type: _ }) => segments && fields@.len()
                > 0,
            Err(_) => segments && fields@.len() == 0,
        },
        !name_stands_elsewhere(indices@, generated@, fields@),
{
    generated_name_is_the_first_free(crate::text::texts(b.columns@), fields@, indices@);
}

/// Columns that are valid for an index have the ids that the schema has for them,
/// one each; one to eight that all exist are valid.
pub proof fn valid_columns_have_their_ids(
    schema: &Vec<SchemaField>,
    columns: &Vec<String>,
    r: Result<ValidatedColumns, Error>,
    i: int,
)
    requires
        call_ensures(validate_index_columns, (schema, columns), r),
        0 <= i < columns@.len(),
    ensures
        match r {
            Ok(v) => columns@.len() <= 8 && v.field_ids@.len() == columns@.len() && (
            match crate::schema::resolution(schema@, columns@[i]@) {
                Some(found) => v.field_ids@[i] == found.field_id && v.corrected_columns@[i]@
                    == crate::schema::field_path(found.path),
                None => false,
            }),
            Err(_) => columns@.len() > 8 || exists|j: int|
                0 <= j < columns@.len() && crate::schema::resolution(
                    schema@,
                    (#[trigger] columns@[j])@,
                ) is None,
        },
{
    let names = crate::text::texts(columns@);
    let found = crate::schema::resolutions(schema@, names);
    columns_must_exist(names, found);
    assert(found[i] == crate::schema::resolution(schema@, columns@[i]@));
    match r {
        Ok(v) => validated_columns_are_those_found(names, found, v, i),
        Err(_) => {
            if columns@.len() <= 8 {
                let j = choose|j: int| 0 <= j < found.len() && !((#[trigger] found[j]) is Some);
                assert(found[j] == crate::schema::resolution(schema@, columns@[j]@));
            }
        },
    }
}

} // verus!
