//! The plugin surface: parameters, training requests and index details.
use vstd::prelude::*;

use crate::compound::CompoundIndexSchema;
use crate::datatype::{DataType, DataTypeOf, DataTypeView, FieldView, Schema};
use crate::error::{Error, ErrorOf};
use crate::flat::COMPOUND_IDS_COLUMN;
use crate::index::{CompoundBTreeIndex, DEFAULT_COMPOUND_BATCH_SIZE};
use crate::parser::{CompoundQueryParser, ParserView};
use crate::text::{clone_texts, concat2, concat3, same_text};

verus! {

/// Version number for compound BTree index.
pub const COMPOUND_BTREE_INDEX_VERSION: u32 = 1;

/// Parameters for compound BTree index training.
#[derive(Debug)]
pub struct CompoundBTreeParameters {
    /// Number of rows of each page.
    pub page_size: Option<u64>,
    /// Column names in index order.
    pub column_names: Vec<String>,
}

#[verifier::ext_equal]
pub struct ParametersView {
    pub page_size: Option<u64>,
    pub column_names: Seq<Seq<char>>,
}

impl View for CompoundBTreeParameters {
    type V = ParametersView;

    open spec fn view(&self) -> ParametersView {
        ParametersView {
            page_size: self.page_size,
            column_names: crate::text::texts(self.column_names@),
        }
    }
}

impl Default for CompoundBTreeParameters {
    fn default() -> (r: Self)
        ensures
            r@ == default_parameters(),
    {
        let r = CompoundBTreeParameters { page_size: None, column_names: Vec::new() };
        assert(r@ =~= default_parameters());
        r
    }
}

impl Clone for CompoundBTreeParameters {
    fn clone(&self) -> (r: Self)
        ensures
            r@ == self@,
    {
        CompoundBTreeParameters {
            page_size: self.page_size,
            column_names: clone_texts(&self.column_names),
        }
    }
}

/// No page size and no columns given.
pub open spec fn default_parameters() -> ParametersView {
    ParametersView { page_size: None, column_names: Seq::empty() }
}

/// The order in which training wants its rows.
#[derive(Debug, Clone, Copy, PartialEq, Eq, Structural)]
pub enum TrainingOrdering {
    Values,
    Addresses,
    Unordered,
}

/// What training wants of its rows.
#[derive(Debug, Clone, Copy, PartialEq, Eq, Structural)]
pub struct TrainingCriteria {
    pub ordering: TrainingOrdering,
    pub needs_row_ids: bool,
    pub needs_row_addrs: bool,
}

impl TrainingCriteria {
    pub fn new(ordering: TrainingOrdering) -> (r: TrainingCriteria)
        ensures
            r == (TrainingCriteria { ordering, needs_row_ids: false, needs_row_addrs: false }),
    {
        TrainingCriteria { ordering, needs_row_ids: false, needs_row_addrs: false }
    }

    pub fn with_row_id(self) -> (r: TrainingCriteria)
        ensures
            r == (TrainingCriteria { needs_row_ids: true, ..self }),
    {
        TrainingCriteria { needs_row_ids: true, ..self }
    }
}

/// Rows sorted by value, with their ids.
pub open spec fn sorted_with_row_ids() -> TrainingCriteria {
    TrainingCriteria {
        ordering: TrainingOrdering::Values,
        needs_row_ids: true,
        needs_row_addrs: false,
    }
}

/// Training request for compound BTree index.
#[derive(Debug)]
pub struct CompoundBTreeTrainingRequest {
    criteria: TrainingCriteria,
    parameters: CompoundBTreeParameters,
}

impl CompoundBTreeTrainingRequest {
    pub closed spec fn wanted(&self) -> TrainingCriteria {
        self.criteria
    }

    pub closed spec fn given(&self) -> ParametersView {
        self.parameters@
    }

    pub fn new(parameters: CompoundBTreeParameters) -> (r: CompoundBTreeTrainingRequest)
        ensures
            r.wanted() == sorted_with_row_ids(),
            r.given() == parameters@,
    {
        CompoundBTreeTrainingRequest {
            criteria: TrainingCriteria::new(TrainingOrdering::Values).with_row_id(),
            parameters,
        }
    }

    pub fn criteria(&self) -> (r: &TrainingCriteria)
        ensures
            *r == self.wanted(),
    {
        &self.criteria
    }

    pub fn parameters(&self) -> (r: &CompoundBTreeParameters)
        ensures
            r@ == self.given(),
    {
        &self.parameters
    }
}

/// What is stored about an index besides its files.
#[derive(Debug)]
pub struct CompoundBTreeIndexDetails {
    pub column_names: Vec<String>,
    pub num_columns: u32,
}

/// An index that was just written.
#[derive(Debug)]
pub struct CreatedIndex {
    pub index_details: CompoundBTreeIndexDetails,
    pub index_version: u32,
}

/// `c` describes an index over the given columns.
pub open spec fn describes(c: CreatedIndex, names: Seq<Seq<char>>) -> bool {
    &&& crate::text::texts(c.index_details.column_names@) == names
    &&& c.index_details.num_columns == names.len() as u32
    &&& c.index_version == COMPOUND_BTREE_INDEX_VERSION
}

/// The record of an index over the given columns.
pub fn created_index(column_names: &Vec<String>) -> (r: CreatedIndex)
    ensures
        describes(r, crate::text::texts(column_names@)),
{
    CreatedIndex {
        index_details: CompoundBTreeIndexDetails {
            column_names: clone_texts(column_names),
            num_columns: #[verifier::truncate] (column_names.len() as u32),
        },
        index_version: COMPOUND_BTREE_INDEX_VERSION,
    }
}

/// The names of the fields that are not row ids, in order.
pub open spec fn value_names(fields: Seq<FieldView>) -> Seq<Seq<char>>
    decreases fields.len(),
{
    if fields.len() == 0 {
        Seq::empty()
    } else {
        let rest = value_names(fields.drop_last());
        if fields.last().name == COMPOUND_IDS_COLUMN@ {
            rest
        } else {
            rest.push(fields.last().name)
        }
    }
}

/// The columns to index: those asked for, or all but the row ids.
pub open spec fn training_columns(p: ParametersView, fields: Seq<FieldView>) -> Seq<Seq<char>> {
    if p.column_names.len() == 0 {
        value_names(fields)
    } else {
        p.column_names
    }
}

/// The property of being a name that no field has.
pub open spec fn is_unknown(names: Seq<Seq<char>>, fields: Seq<FieldView>) -> spec_fn(int) -> bool {
    |c: int|
        crate::first::first_where(fields.len(), crate::batch::is_named(fields, names[c])) is None
}

/// The types of the named fields.
pub open spec fn field_types(names: Seq<Seq<char>>, fields: Seq<FieldView>) -> Seq<DataTypeView> {
    Seq::new(
        names.len(),
        |c: int|
            fields[crate::first::first_where(
                fields.len(),
                crate::batch::is_named(fields, names[c]),
            )->0].data_type,
    )
}

/// What to train: the columns with their types and the page size.
#[derive(Debug)]
pub struct TrainingPlan {
    pub schema: CompoundIndexSchema,
    pub page_size: u64,
}

/// Plugin for compound (multi-column) BTree scalar indices.
#[derive(Debug, Default)]
pub struct CompoundBTreeIndexPlugin;

impl CompoundBTreeIndexPlugin {
    pub fn name(&self) -> (r: &'static str)
        ensures
            r@ == "CompoundBTree"@,
    {
        "CompoundBTree"
    }

    /// A training request from parameters as text. `parsed` is what the text
    /// decodes to, or the decoder's complaint; it counts only where the text is
    /// not empty.
    pub fn new_training_request(
        &self,
        params: &str,
        parsed: Result<CompoundBTreeParameters, String>,
        field_is_nested: bool,
    ) -> (r: Result<CompoundBTreeTrainingRequest, Error>)
        ensures
            field_is_nested ==> crate::error::fails_with(
                r,
                crate::error::invalid_input(
                    "A compound btree index cannot include nested fields."@,
                ),
            ),
            !field_is_nested && params@.len() == 0 ==> (r matches Ok(q) && q.given()
                == default_parameters() && q.wanted() == sorted_with_row_ids()),
            !field_is_nested && params@.len() > 0 ==> match parsed {
                Ok(p) => r matches Ok(q) && q.given() == p@ && q.wanted()
                    == sorted_with_row_ids(),
                Err(e) => crate::error::fails_with(
                    r,
                    crate::error::invalid_input("Invalid compound btree parameters: "@ + e@),
                ),
            },
    {
        if field_is_nested {
            return Err(
                ErrorOf::InvalidInput {
                    message: "A compound btree index cannot include nested fields.".to_owned(),
                },
            );
        }
        let parameters = if params.is_empty() {
            CompoundBTreeParameters::default()
        } else {
            match parsed {
                Ok(p) => p,
                Err(e) => {
                    return Err(
                        ErrorOf::InvalidInput {
                            message: concat2(
                                "Invalid compound btree parameters: ",
                                e.as_str(),
                            ),
                        },
                    );
                },
            }
        };
        Ok(CompoundBTreeTrainingRequest::new(parameters))
    }

    /// Searches give exactly the matching rows.
    pub fn provides_exact_answer(&self) -> (r: bool)
        ensures
            r,
    {
        true
    }

    pub fn version(&self) -> (r: u32)
        ensures
            r == COMPOUND_BTREE_INDEX_VERSION,
    {
        COMPOUND_BTREE_INDEX_VERSION
    }

    /// A parser from the stored details, which do not hold the column types;
    /// none for details without columns.
    pub fn new_query_parser(
        &self,
        index_name: String,
        details: Option<CompoundBTreeIndexDetails>,
    ) -> (r: Option<CompoundQueryParser>)
        ensures
            match details {
                Some(d) if d.column_names@.len() > 0 => r matches Some(p) && p@ == (ParserView {
                    index_name: index_name@,
                    columns: crate::text::texts(d.column_names@),
                    data_types: Seq::new(d.column_names@.len(), |i: int| DataTypeOf::Null),
                }),
                _ => r is None,
            },
    {
        match details {
            Some(d) => {
                if d.column_names.len() == 0 {
                    return None;
                }
                let mut data_types: Vec<DataType> = Vec::new();
                let n = d.column_names.len();
                for i in 0..n
                    invariant
                        data_types@.len() == i,
                        forall|j: int| 0 <= j < i ==> (#[trigger] data_types@[j])@ is Null,
                {
                    data_types.push(DataType::Null);
                }
                assert(crate::datatype::types(data_types@) =~= Seq::new(
                    n as nat,
                    |i: int| DataTypeOf::Null,
                ));
                Some(CompoundQueryParser::new(index_name, d.column_names, data_types))
            },
            None => None,
        }
    }

    /// What to train on data with the given schema.
    pub fn plan_training(&self, request: &CompoundBTreeTrainingRequest, schema: &Schema) -> (r:
        Result<TrainingPlan, Error>)
        ensures
            ({
                let names = training_columns(request.given(), schema@.fields);
                match crate::first::first_where(
                    names.len(),
                    is_unknown(names, schema@.fields),
                ) {
                    Some(c) => crate::error::fails_with(
                        r,
                        crate::error::index_error(
                            "Column '"@ + names[c] + "' not found in training data"@,
                        ),
                    ),
                    None => r matches Ok(plan) && plan.schema.column_texts() == names
                        && plan.schema.type_views() == field_types(names, schema@.fields)
                        && plan.page_size == (match request.given().page_size {
                        Some(n) => n,
                        None => DEFAULT_COMPOUND_BATCH_SIZE,
                    }),
                }
            }),
    {
        let ghost fields = schema@.fields;
        let column_names = if request.parameters.column_names.len() == 0 {
            schema_value_names(schema)
        } else {
            clone_texts(&request.parameters.column_names)
        };
        let ghost names = crate::text::texts(column_names@);
        assert(names == training_columns(request.given(), fields));
        let mut data_types: Vec<DataType> = Vec::new();
        let ghost unknown = is_unknown(names, fields);
        for c in 0..column_names.len()
            invariant
                fields == schema@.fields,
                names == crate::text::texts(column_names@),
                names == training_columns(request.given(), fields),
                unknown == is_unknown(names, fields),
                forall|j: int| 0 <= j < c ==> !(#[trigger] unknown(j)),
                data_types@.len() == c,
                forall|j: int|
                    0 <= j < c ==> (#[trigger] data_types@[j])@ == field_types(names, fields)[j],
        {
            match field_index(schema, column_names[c].as_str()) {
                Some(i) => {
                    assert(!unknown(c as int));
                    data_types.push(schema.fields[i].data_type.clone());
                },
                None => {
                    proof {
                        assert(unknown(c as int));
                        crate::first::first_where_found(names.len(), unknown, c as int);
                    }
                    return Err(
                        ErrorOf::Index {
                            message: concat3(
                                "Column '",
                                column_names[c].as_str(),
                                "' not found in training data",
                            ),
                        },
                    );
                },
            }
        }
        proof {
            crate::first::first_where_absent(names.len(), unknown);
            assert(crate::datatype::types(data_types@) =~= field_types(names, fields));
        }
        let page_size: u64 = match request.parameters.page_size {
            Some(n) => n,
            None => DEFAULT_COMPOUND_BATCH_SIZE,
        };
        Ok(TrainingPlan { schema: CompoundIndexSchema::new(column_names, data_types), page_size })
    }
}

/// The position of the first field with a name.
fn field_index(schema: &Schema, name: &str) -> (r: Option<usize>)
    ensures
        match r {
            Some(i) => i < schema.fields@.len() && crate::first::first_where(
                schema@.fields.len(),
                crate::batch::is_named(schema@.fields, name@),
            ) == Some(i as int),
            None => crate::first::first_where(
                schema@.fields.len(),
                crate::batch::is_named(schema@.fields, name@),
            ) is None,
        },
{
    let n = schema.fields.len();
    let ghost p = crate::batch::is_named(schema@.fields, name@);
    for i in 0..n
        invariant
            n == schema.fields@.len(),
            p == crate::batch::is_named(schema@.fields, name@),
            forall|j: int| 0 <= j < i ==> !(#[trigger] p(j)),
    {
        if same_text(schema.fields[i].name.as_str(), name) {
            proof {
                assert(p(i as int));
                crate::first::first_where_found(n as nat, p, i as int);
            }
            return Some(i);
        }
        assert(!p(i as int));
    }
    proof {
        crate::first::first_where_absent(n as nat, p);
    }
    None
}

fn schema_value_names(schema: &Schema) -> (r: Vec<String>)
    ensures
        crate::text::texts(r@) == value_names(schema@.fields),
{
    let mut out: Vec<String> = Vec::new();
    let ghost fields = schema@.fields;
    assert(crate::text::texts(out@) =~= value_names(fields.take(0)));
    for i in 0..schema.fields.len()
        invariant
            fields == schema@.fields,
            crate::text::texts(out@) == value_names(fields.take(i as int)),
    {
        assert(fields.take(i + 1).drop_last() =~= fields.take(i as int));
        assert(fields.take(i + 1).last() == schema.fields@[i as int]@);
        if !same_text(schema.fields[i].name.as_str(), COMPOUND_IDS_COLUMN) {
            let ghost before = out@;
            out.push(schema.fields[i].name.clone());
            assert(crate::text::texts(out@) =~= crate::text::texts(before).push(
                schema.fields@[i as int].name@,
            ));
        }
    }
    assert(fields.take(fields.len() as int) =~= fields);
    out
}

/// The parameters that would train an index like this one.
pub fn derive_index_params(index: &CompoundBTreeIndex) -> (r: CompoundBTreeParameters)
    ensures
        r@ == (ParametersView {
            page_size: Some(index@.batch_size),
            column_names: index@.columns,
        }),
{
    CompoundBTreeParameters {
        page_size: Some(index.batch_size()),
        column_names: clone_texts(index.columns()),
    }
}

/// A field is not that of the row ids.
pub open spec fn is_value_field(f: FieldView) -> bool {
    f.name != "_rowid"@
}

/// The names of the fields that are not row ids are those left when the row ids
/// are taken out.
pub proof fn value_names_leave_out_row_ids(fields: Seq<FieldView>)
    ensures
        value_names(fields) == fields.filter(|f: FieldView| is_value_field(f)).map_values(
            |f: FieldView| f.name,
        ),
    decreases fields.len(),
{
    reveal(Seq::filter);
    let kept = |f: FieldView| is_value_field(f);
    let name = |f: FieldView| f.name;
    if fields.len() == 0 {
        assert(fields.filter(kept).map_values(name) =~= Seq::<Seq<char>>::empty());
    } else {
        value_names_leave_out_row_ids(fields.drop_last());
        let rest = fields.drop_last().filter(kept);
        let last = fields.last();
        if is_value_field(last) {
            assert(fields.filter(kept) == rest.push(last));
            assert(rest.push(last).map_values(name) =~= rest.map_values(name).push(last.name));
        } else {
            assert(fields.filter(kept) == rest);
        }
    }
}

/// Training is on the columns asked for, whatever the data has besides, and on
/// all columns but the row ids where none are asked for.
pub proof fn training_is_on_columns_asked_for(p: ParametersView, fields: Seq<FieldView>, i: int)
    ensures
        p.column_names.len() > 0 ==> training_columns(p, fields) == p.column_names,
        p.column_names.len() == 0 && 0 <= i < fields.len() && fields[i].name != "_rowid"@
            ==> training_columns(p, fields).contains(fields[i].name),
        p.column_names.len() == 0 ==> !training_columns(p, fields).contains("_rowid"@),
        p.column_names.len() == 0 ==> training_columns(p, fields) == fields.filter(
            |f: FieldView| is_value_field(f),
        ).map_values(|f: FieldView| f.name),
{
    broadcast use vstd::seq_lib::group_filter_ensures;

    if p.column_names.len() == 0 {
        value_names_leave_out_row_ids(fields);
        let kept = |f: FieldView| is_value_field(f);
        let left = fields.filter(kept);
        let names = left.map_values(|f: FieldView| f.name);
        if 0 <= i < fields.len() && fields[i].name != "_rowid"@ {
            assert(kept(fields[i]));
            assert(left.contains(fields[i]));
            let k = choose|k: int| 0 <= k < left.len() && left[k] == fields[i];
            assert(names[k] == fields[i].name);
        }
        if names.contains("_rowid"@) {
            let k = choose|k: int| 0 <= k < names.len() && names[k] == "_rowid"@;
            assert(kept(left[k]));
        }
    }
}

/// A column's type is that of the first field with its name; a column is unknown
/// exactly where no field has its name.
pub proof fn columns_have_their_fields_types(
    names: Seq<Seq<char>>,
    fields: Seq<FieldView>,
    c: int,
    i: int,
)
    requires
        0 <= c < names.len(),
    ensures
        field_types(names, fields).len() == names.len(),
        0 <= i < fields.len() && fields[i].name == names[c] && (forall|j: int|
            0 <= j < i ==> (#[trigger] fields[j]).name != names[c]) ==> field_types(
            names,
            fields,
        )[c] == fields[i].data_type,
        is_unknown(names, fields)(c) <==> forall|j: int|
            0 <= j < fields.len() ==> (#[trigger] fields[j]).name != names[c],
{
    let p = crate::batch::is_named(fields, names[c]);
    crate::first::first_where_spec(fields.len(), p);
    assert forall|j: int| 0 <= j < fields.len() implies ((#[trigger] fields[j]).name == names[c]
        <==> p(j)) by {}
    if 0 <= i < fields.len() && fields[i].name == names[c] && (forall|j: int|
        0 <= j < i ==> (#[trigger] fields[j]).name != names[c]) {
        assert(p(i));
        crate::first::first_where_found(fields.len(), p, i);
    }
    if let Some(k) = crate::first::first_where(fields.len(), p) {
        assert(fields[k].name == names[c]);
    }
}

/// The record of an index names its columns, in order, and counts them, and is
/// of the first version.
pub proof fn record_names_its_columns(c: CreatedIndex, names: Seq<Seq<char>>, i: int)
    requires
        describes(c, names),
        names.len() <= u32::MAX,
        0 <= i < names.len(),
    ensures
        c.index_details.column_names@.len() == names.len(),
        c.index_details.column_names@[i]@ == names[i],
        c.index_details.num_columns == names.len(),
        c.index_version == 1,
{
    assert(crate::text::texts(c.index_details.column_names@)[i]
        == c.index_details.column_names@[i]@);
}

/// Training takes rows in the order of their values, with their ids and without
/// their addresses; parameters that nobody gave name no columns and no page size.
pub proof fn training_defaults()
    ensures
        sorted_with_row_ids().ordering is Values,
        sorted_with_row_ids().needs_row_ids,
        !sorted_with_row_ids().needs_row_addrs,
        default_parameters().page_size is None,
        default_parameters().column_names.len() == 0,
{
}

/// Training is planned on the columns asked for with the types that the data has
/// for them and the page size asked for, and fails exactly where the data lacks
/// a column.
pub proof fn training_is_planned_as_asked(
    plugin: &CompoundBTreeIndexPlugin,
    request: &CompoundBTreeTrainingRequest,
    schema: &Schema,
    r: Result<TrainingPlan, Error>,
)
    requires
        call_ensures(CompoundBTreeIndexPlugin::plan_training, (plugin, request, schema), r),
        request.given().column_names.len() > 0,
    ensures
        r is Ok <==> forall|c: int|
            0 <= c < request.given().column_names.len() ==> names_a_field(
                schema@.fields,
                #[trigger] request.given().column_names[c],
            ),
        match r {
            Ok(plan) => plan.schema.column_texts() == request.given().column_names && (
            match request.given().page_size {
                Some(n) => plan.page_size == n,
                None => plan.page_size == 4096,
            }),
            Err(_) => true,
        },
{
    let names = request.given().column_names;
    let fields = schema@.fields;
    assert(training_columns(request.given(), fields) == names);
    let unknown = is_unknown(names, fields);
    crate::first::first_where_spec(names.len(), unknown);
    assert forall|c: int| 0 <= c < names.len() implies (unknown(c) <==> !names_a_field(
        fields,
        #[trigger] names[c],
    )) by {
        columns_have_their_fields_types(names, fields, c, 0);
        if !unknown(c) {
            let j = choose|j: int| 0 <= j < fields.len() && (#[trigger] fields[j]).name == names[c];
            assert(fields[j].name == names[c]);
        }
    }
    if let Some(c) = crate::first::first_where(names.len(), unknown) {
        assert(unknown(c));
        assert(!names_a_field(fields, names[c]));
    }
}

/// A field has the name.
pub open spec fn names_a_field(fields: Seq<FieldView>, name: Seq<char>) -> bool {
    exists|j: int| 0 <= j < fields.len() && (#[trigger] fields[j]).name == name
}

/// A request on a nested field is refused. Any other has the parameters that its
/// text decodes to, or none where there is no text, and fails only where the text
/// does not decode.
pub proof fn requests_have_their_parameters(
    plugin: &CompoundBTreeIndexPlugin,
    params: &str,
    parsed: Result<CompoundBTreeParameters, String>,
    field_is_nested: bool,
    r: Result<CompoundBTreeTrainingRequest, Error>,
)
    requires
        call_ensures(
            CompoundBTreeIndexPlugin::new_training_request,
            (plugin, params, parsed, field_is_nested),
            r,
        ),
    ensures
        r is Ok <==> !field_is_nested && (params@.len() == 0 || parsed is Ok),
        match r {
            Ok(q) => {
                &&& q.wanted().ordering is Values
                &&& q.wanted().needs_row_ids
                &&& if params@.len() == 0 {
                    q.given().page_size is None && q.given().column_names.len() == 0
                } else {
                    match parsed {
                        Ok(p) => q.given().page_size == p.page_size && q.given().column_names
                            == crate::text::texts(p.column_names@),
                        Err(_) => false,
                    }
                }
            },
            Err(_) => true,
        },
{
}

/// A parser from the details of an index is on the columns that they name, and
/// there is none for details without columns.
pub proof fn parser_is_on_the_columns(
    plugin: &CompoundBTreeIndexPlugin,
    index_name: String,
    details: Option<CompoundBTreeIndexDetails>,
    r: Option<CompoundQueryParser>,
)
    requires
        call_ensures(
            CompoundBTreeIndexPlugin::new_query_parser,
            (plugin, index_name, details),
            r,
        ),
    ensures
        match (r, details) {
            (Some(p), Some(d)) => d.column_names@.len() > 0 && p@.index_name == index_name@
                && p@.columns == crate::text::texts(d.column_names@) && p@.data_types.len()
                == d.column_names@.len(),
            (None, Some(d)) => d.column_names@.len() == 0,
            (None, None) => true,
            (Some(_), None) => false,
        },
{
}

/// The parameters derived from an index train one like it: a request for them on
/// data with the columns is planned on the same columns and with the same page
/// size.
pub proof fn derived_parameters_train_the_same(
    plugin: &CompoundBTreeIndexPlugin,
    index: &CompoundBTreeIndex,
    derived: CompoundBTreeParameters,
    request: &CompoundBTreeTrainingRequest,
    schema: &Schema,
    plan: TrainingPlan,
)
    requires
        index@.columns.len() > 0,
        call_ensures(derive_index_params, (index,), derived),
        request.given() == derived@,
        call_ensures(
            CompoundBTreeIndexPlugin::plan_training,
            (plugin, request, schema),
            Ok(plan),
        ),
    ensures
        plan.schema.column_texts() == index@.columns,
        plan.page_size == index@.batch_size,
{
    training_is_planned_as_asked(plugin, request, schema, Ok(plan));
}

} // verus!
