//! Columns and batches of rows.
use vstd::prelude::*;
use vstd::string::StringExecFns;

use crate::datatype::{same_type, DataType, DataTypeOf, DataTypeView, FieldView, Schema, SchemaView};
use crate::error::{Error, ErrorOf, ErrorView};
use crate::rows::{refused_value, shown_type, takes_value};
use crate::scalar::{ScalarKey, ScalarValue, ScalarView};
use crate::text::{concat3, decimal, same_text};

verus! {

/// A column: values of one type.
#[derive(Debug)]
pub struct Column {
    data_type: DataType,
    values: Vec<ScalarValue>,
}

#[verifier::ext_equal]
pub struct ColumnView {
    pub data_type: DataTypeView,
    pub values: Seq<ScalarView>,
}

impl ColumnView {
    /// Every value has the column's type.
    pub open spec fn typed(self) -> bool {
        forall|i: int|
            0 <= i < self.values.len() ==> (#[trigger] self.values[i]).data_type == self.data_type
    }

    pub open spec fn has_null(self) -> bool {
        exists|i: int| 0 <= i < self.values.len() && (#[trigger] self.values[i]).is_null()
    }
}

/// How many of the values are null.
pub open spec fn null_count_of(values: Seq<ScalarView>) -> nat
    decreases values.len(),
{
    if values.len() == 0 {
        0
    } else {
        null_count_of(values.drop_last()) + if values.last().is_null() {
            1nat
        } else {
            0nat
        }
    }
}

/// No value is null exactly when the null count is zero.
pub proof fn null_count_zero(values: Seq<ScalarView>)
    ensures
        null_count_of(values) <= values.len(),
        null_count_of(values) == 0 <==> (forall|i: int|
            0 <= i < values.len() ==> !(#[trigger] values[i]).is_null()),
    decreases values.len(),
{
    if values.len() > 0 {
        null_count_zero(values.drop_last());
        if null_count_of(values) == 0 {
            assert forall|i: int| 0 <= i < values.len() implies !(
            #[trigger] values[i]).is_null() by {
                if i < values.len() - 1 {
                    assert(values.drop_last()[i] == values[i]);
                }
            }
        } else if forall|i: int| 0 <= i < values.len() ==> !(#[trigger] values[i]).is_null() {
            assert(!values.last().is_null());
            assert forall|i: int| 0 <= i < values.drop_last().len() implies !(
            #[trigger] values.drop_last()[i]).is_null() by {
                assert(values.drop_last()[i] == values[i]);
            }
        }
    }
}

/// The unsigned integer that a value holds. A null holds zero: that is what a
/// column has in its place.
pub open spec fn u64_of(v: ScalarView) -> u64 {
    match v.key {
        Some(ScalarKey::Int(n)) => n as u64,
        _ => 0,
    }
}

/// As `u64_of`, for 32 bits.
pub open spec fn u32_of(v: ScalarView) -> u32 {
    match v.key {
        Some(ScalarKey::Int(n)) => n as u32,
        _ => 0,
    }
}

/// An unsigned 64-bit value.
pub open spec fn u64_scalar(n: u64) -> ScalarView {
    ScalarView { data_type: DataTypeOf::UInt64, key: Some(ScalarKey::Int(n as int)) }
}

/// An unsigned 32-bit value.
pub open spec fn u32_scalar(n: u32) -> ScalarView {
    ScalarView { data_type: DataTypeOf::UInt32, key: Some(ScalarKey::Int(n as int)) }
}

impl View for Column {
    type V = ColumnView;

    closed spec fn view(&self) -> ColumnView {
        ColumnView { data_type: self.data_type@, values: crate::scalar::scalars(self.values@) }
    }
}

pub open spec fn mixed_types_error() -> ErrorView {
    ErrorOf::Arrow { message: "Inconsistent types in column"@ }
}

pub open spec fn no_values_error() -> ErrorView {
    ErrorOf::Execution {
        message: "Execution error: Empty iterator passed to ScalarValue::iter_to_array"@,
    }
}

/// The property of being a value that the type of the first does not take.
pub open spec fn misfits(values: Seq<ScalarView>) -> spec_fn(int) -> bool {
    |i: int| !crate::rows::fits_type(values[0].data_type, values[i])
}

/// Why the values do not make a column of the first one's type, if they do not.
pub open spec fn values_defect(values: Seq<ScalarView>) -> Option<ErrorView> {
    if values.len() == 0 {
        Some(no_values_error())
    } else {
        match crate::first::first_where(values.len(), misfits(values)) {
            Some(i) => Some(crate::rows::array_error(values[0].data_type, values[i])),
            None => None,
        }
    }
}

/// The column of the first value's type that the values make.
pub open spec fn column_of(values: Seq<ScalarView>) -> ColumnView {
    ColumnView {
        data_type: values[0].data_type,
        values: Seq::new(
            values.len(),
            |i: int| crate::scalar::with_type(values[i], values[0].data_type),
        ),
    }
}

/// Arrow's complaint about an argument.
fn invalid_argument(text: &str) -> (r: Error)
    ensures
        r@ == crate::error::invalid_argument(text@),
{
    ErrorOf::Arrow { message: crate::text::concat2("Invalid argument error: ", text) }
}

impl Column {
    #[verifier::type_invariant]
    spec fn inv(self) -> bool {
        self.view().typed()
    }

    /// A column of values that all have the given type.
    pub fn try_new(data_type: DataType, values: Vec<ScalarValue>) -> (r: Result<Column, Error>)
        ensures
            match r {
                Ok(c) => c@ == (ColumnView {
                    data_type: data_type@,
                    values: crate::scalar::scalars(values@),
                }) && c@.typed(),
                Err(e) => e@ == mixed_types_error() && exists|i: int|
                    0 <= i < values@.len() && (#[trigger] values@[i])@.data_type != data_type@,
            },
    {
        for i in 0..values.len()
            invariant
                forall|j: int| 0 <= j < i ==> (#[trigger] values@[j])@.data_type == data_type@,
        {
            if !same_type(&values[i].data_type(), &data_type) {
                assert(values@[i as int]@.data_type != data_type@);
                return Err(ErrorOf::Arrow { message: "Inconsistent types in column".to_owned() });
            }
        }
        Ok(Column { data_type, values })
    }

    /// A column of the first value's type. The other values may differ from it
    /// in the parameters of their types, and take on those of the first.
    pub fn from_scalars(values: Vec<ScalarValue>) -> (r: Result<Column, Error>)
        ensures
            match values_defect(crate::scalar::scalars(values@)) {
                Some(e) => crate::error::fails_with(r, e),
                None => r matches Ok(c) && c@ == column_of(crate::scalar::scalars(values@))
                    && c@.typed(),
            },
    {
        let n = values.len();
        if n == 0 {
            return Err(
                ErrorOf::Execution {
                    message:
                        "Execution error: Empty iterator passed to ScalarValue::iter_to_array"
                        .to_owned(),
                },
            );
        }
        let data_type = values[0].data_type();
        let ghost views = crate::scalar::scalars(values@);
        let ghost p = misfits(views);
        assert(views[0] == values@[0]@);
        let mut out: Vec<ScalarValue> = Vec::new();
        for i in 0..n
            invariant
                n == values@.len(),
                n > 0,
                views == crate::scalar::scalars(values@),
                p == misfits(views),
                data_type@ == views[0].data_type,
                out@.len() == i,
                forall|j: int| 0 <= j < i ==> !(#[trigger] p(j)),
                forall|j: int|
                    0 <= j < i ==> (#[trigger] out@[j])@ == column_of(views).values[j],
        {
            assert(views[i as int] == values@[i as int]@);
            if !takes_value(&data_type, &values[i]) {
                proof {
                    assert(p(i as int));
                    crate::first::first_where_found(n as nat, p, i as int);
                }
                return Err(refused_value(&data_type, &values[i]));
            }
            assert(!p(i as int));
            out.push(values[i].retyped(&data_type));
        }
        proof {
            crate::first::first_where_absent(n as nat, p);
            assert(crate::scalar::scalars(out@) =~= column_of(views).values);
        }
        Ok(Column { data_type, values: out })
    }

    pub fn data_type(&self) -> (r: &DataType)
        ensures
            r@ == self@.data_type,
            self@.typed(),
    {
        proof {
            use_type_invariant(self);
        }
        &self.data_type
    }

    pub fn len(&self) -> (r: usize)
        ensures
            r == self@.values.len(),
            self@.typed(),
    {
        proof {
            use_type_invariant(self);
        }
        self.values.len()
    }

    pub fn value(&self, i: usize) -> (r: &ScalarValue)
        requires
            i < self@.values.len(),
        ensures
            r@ == self@.values[i as int],
            r@.data_type == self@.data_type,
    {
        proof {
            use_type_invariant(self);
            assert(self@.values[i as int] == self.values@[i as int]@);
        }
        &self.values[i]
    }

    pub fn null_count(&self) -> (r: usize)
        ensures
            r == null_count_of(self@.values),
    {
        let mut n: usize = 0;
        let ghost vals = self@.values;
        for i in 0..self.values.len()
            invariant
                vals == crate::scalar::scalars(self.values@),
                n == null_count_of(vals.take(i as int)),
                n <= i,
        {
            assert(vals.take(i + 1).drop_last() =~= vals.take(i as int));
            assert(vals.take(i + 1).last() == self.values@[i as int]@);
            if self.values[i].is_null() {
                n += 1;
            }
        }
        assert(vals.take(vals.len() as int) =~= vals);
        n
    }

    /// The 64-bit value at a position.
    pub fn u64_value(&self, i: usize) -> (r: u64)
        requires
            i < self@.values.len(),
            self@.data_type is UInt64,
        ensures
            r == u64_of(self@.values[i as int]),
    {
        match self.value(i) {
            ScalarValue::UInt64(Some(x)) => *x,
            _ => 0,
        }
    }

    /// The 32-bit value at a position.
    pub fn u32_value(&self, i: usize) -> (r: u32)
        requires
            i < self@.values.len(),
            self@.data_type is UInt32,
        ensures
            r == u32_of(self@.values[i as int]),
    {
        match self.value(i) {
            ScalarValue::UInt32(Some(x)) => *x,
            _ => 0,
        }
    }

    /// The values at the given positions.
    pub fn gather(&self, positions: &Vec<usize>) -> (r: Column)
        requires
            forall|k: int| 0 <= k < positions@.len() ==> positions@[k] < self@.values.len(),
        ensures
            r@ == gathered(self@, positions@),
    {
        let mut values: Vec<ScalarValue> = Vec::new();
        proof {
            use_type_invariant(self);
        }
        for k in 0..positions.len()
            invariant
                self@.typed(),
                forall|k: int| 0 <= k < positions@.len() ==> positions@[k] < self@.values.len(),
                values@.len() == k,
                forall|j: int|
                    0 <= j < k ==> (#[trigger] values@[j])@ == self@.values[positions@[j] as int],
        {
            values.push(self.value(positions[k]).clone());
        }
        let data_type = self.data_type.clone();
        assert(crate::scalar::scalars(values@) =~= gathered(self@, positions@).values);
        Column { data_type, values }
    }
}

impl Column {
    /// The values from one position up to another.
    fn slice(&self, from: usize, to: usize) -> (r: Column)
        requires
            from <= to <= self@.values.len(),
        ensures
            r@ == (ColumnView {
                data_type: self@.data_type,
                values: self@.values.subrange(from as int, to as int),
            }),
    {
        proof {
            use_type_invariant(self);
        }
        let mut values: Vec<ScalarValue> = Vec::new();
        for k in from..to
            invariant
                self@.typed(),
                from <= to <= self@.values.len(),
                values@.len() == k - from,
                forall|j: int|
                    0 <= j < k - from ==> (#[trigger] values@[j])@ == self@.values[from + j],
        {
            values.push(self.value(k).clone());
        }
        let data_type = self.data_type.clone();
        assert(crate::scalar::scalars(values@) =~= self@.values.subrange(from as int, to as int));
        Column { data_type, values }
    }
}

impl Clone for Column {
    fn clone(&self) -> (r: Self)
        ensures
            r@ == self@,
    {
        proof {
            use_type_invariant(self);
        }
        let data_type = self.data_type.clone();
        let values = crate::scalar::clone_scalars(&self.values);
        Column { data_type, values }
    }
}

/// The values of a column at the given positions.
pub open spec fn gathered(c: ColumnView, positions: Seq<usize>) -> ColumnView {
    ColumnView {
        data_type: c.data_type,
        values: Seq::new(positions.len(), |k: int| c.values[positions[k] as int]),
    }
}

/// The views of a vector of columns.
pub open spec fn columns_view(v: Seq<Column>) -> Seq<ColumnView> {
    Seq::new(v.len(), |i: int| v[i]@)
}

/// Rows with a schema: columns of one length.
#[derive(Debug)]
pub struct RecordBatch {
    schema: Schema,
    columns: Vec<Column>,
    rows: usize,
}

#[verifier::ext_equal]
pub struct BatchView {
    pub schema: SchemaView,
    pub columns: Seq<ColumnView>,
    pub rows: nat,
}

/// The property of being the field with a name.
pub open spec fn is_named(fields: Seq<FieldView>, name: Seq<char>) -> spec_fn(int) -> bool {
    |i: int| fields[i].name == name
}

impl BatchView {
    /// One column per field, of its type, as long as the others, and without
    /// nulls where the field has none.
    pub open spec fn wf(self) -> bool {
        &&& self.columns.len() == self.schema.fields.len()
        &&& forall|i: int|
            #![trigger self.columns[i]]
            0 <= i < self.columns.len() ==> {
                &&& self.columns[i].data_type == self.schema.fields[i].data_type
                &&& self.columns[i].values.len() == self.rows
                &&& self.columns[i].typed()
                &&& !self.schema.fields[i].nullable ==> !self.columns[i].has_null()
            }
    }

    /// The position of the first column with a name.
    pub open spec fn index_of(self, name: Seq<char>) -> Option<int> {
        crate::first::first_where(self.schema.fields.len(), is_named(self.schema.fields, name))
    }

    /// The first column with a name.
    pub open spec fn column_by_name(self, name: Seq<char>) -> Option<ColumnView> {
        match self.index_of(name) {
            Some(i) => Some(self.columns[i]),
            None => None,
        }
    }
}

impl View for RecordBatch {
    type V = BatchView;

    closed spec fn view(&self) -> BatchView {
        BatchView {
            schema: self.schema@,
            columns: columns_view(self.columns@),
            rows: self.rows as nat,
        }
    }
}

/// The property of being a column with nulls that its field does not allow.
pub open spec fn has_forbidden_null(
    fields: Seq<FieldView>,
    columns: Seq<ColumnView>,
) -> spec_fn(int) -> bool {
    |i: int| !fields[i].nullable && columns[i].has_null()
}

/// The property of being a column of another type than its field.
pub open spec fn has_other_type(
    fields: Seq<FieldView>,
    columns: Seq<ColumnView>,
) -> spec_fn(int) -> bool {
    |i: int| columns[i].data_type != fields[i].data_type
}

/// Why the columns do not make a batch with the schema, if they do not.
pub open spec fn batch_defect(schema: SchemaView, columns: Seq<ColumnView>) -> Option<ErrorView> {
    let n = columns.len();
    if n != schema.fields.len() {
        Some(
            crate::error::invalid_argument(
                "number of columns("@ + crate::text::decimal_text(n)
                    + ") must match number of fields("@ + crate::text::decimal_text(
                    schema.fields.len(),
                ) + ") in schema"@,
            ),
        )
    } else if n == 0 {
        Some(
            crate::error::invalid_argument(
                "must either specify a row count or at least one column"@,
            ),
        )
    } else {
        match crate::first::first_where(n, has_forbidden_null(schema.fields, columns)) {
            Some(i) => Some(
                crate::error::invalid_argument(
                    "Column '"@ + schema.fields[i].name
                        + "' is declared as non-nullable but contains null values"@,
                ),
            ),
            None => if exists|i: int|
                0 <= i < n && (#[trigger] columns[i]).values.len() != columns[0].values.len() {
                Some(
                    crate::error::invalid_argument(
                        "all columns in a record batch must have the same length"@,
                    ),
                )
            } else {
                match crate::first::first_where(n, has_other_type(schema.fields, columns)) {
                    Some(i) => Some(
                        crate::error::invalid_argument(
                            "column types must match schema types, expected "@
                                + crate::rows::type_text(schema.fields[i].data_type)
                                + " but found "@ + crate::rows::type_text(columns[i].data_type)
                                + " at column index "@ + crate::text::decimal_text(i as nat),
                        ),
                    ),
                    None => None,
                }
            },
        }
    }
}

impl RecordBatch {
    #[verifier::type_invariant]
    spec fn inv(self) -> bool {
        self.view().wf()
    }

    /// A batch of the given columns.
    pub fn try_new(schema: Schema, columns: Vec<Column>) -> (r: Result<RecordBatch, Error>)
        ensures
            match batch_defect(schema@, columns_view(columns@)) {
                Some(e) => crate::error::fails_with(r, e),
                None => r matches Ok(b) && b@ == (BatchView {
                    schema: schema@,
                    columns: columns_view(columns@),
                    rows: columns@[0]@.values.len(),
                }) && b@.wf(),
            },
    {
        let ghost fs = schema@.fields;
        let ghost cs = columns_view(columns@);
        let n = columns.len();
        if n != schema.fields.len() {
            let mut message = concat3(
                "number of columns(",
                decimal(n as u64).as_str(),
                ") must match number of fields(",
            );
            message.append(decimal(schema.fields.len() as u64).as_str());
            message.append(") in schema");
            return Err(invalid_argument(message.as_str()));
        }
        if n == 0 {
            return Err(
                invalid_argument("must either specify a row count or at least one column"),
            );
        }
        for i in 0..n
            invariant
                n == columns@.len() == schema.fields@.len(),
                fs == schema@.fields,
                cs == columns_view(columns@),
                batch_defect(schema@, cs) == batch_defect(schema@, columns_view(columns@)),
                n > 0,
                forall|j: int| 0 <= j < i ==> !(#[trigger] has_forbidden_null(fs, cs)(j)),
        {
            if !schema.fields[i].nullable {
                let nulls = columns[i].null_count();
                proof {
                    null_count_zero(columns@[i as int]@.values);
                    assert(cs[i as int] == columns@[i as int]@);
                    assert(fs[i as int] == schema.fields@[i as int]@);
                }
                if nulls > 0 {
                    proof {
                        assert(cs[i as int].has_null());
                        crate::first::first_where_found(
                            n as nat,
                            has_forbidden_null(fs, cs),
                            i as int,
                        );
                    }
                    let message = concat3(
                        "Column '",
                        schema.fields[i].name.as_str(),
                        "' is declared as non-nullable but contains null values",
                    );
                    return Err(invalid_argument(message.as_str()));
                }
            }
        }
        proof {
            crate::first::first_where_absent(n as nat, has_forbidden_null(fs, cs));
        }
        let rows = columns[0].len();
        for i in 0..n
            invariant
                n == columns@.len() == schema.fields@.len(),
                n > 0,
                fs == schema@.fields,
                cs == columns_view(columns@),
                rows == cs[0].values.len(),
                crate::first::first_where(n as nat, has_forbidden_null(fs, cs)) is None,
                forall|j: int| 0 <= j < i ==> (#[trigger] cs[j]).values.len() == rows,
        {
            assert(cs[i as int] == columns@[i as int]@);
            if columns[i].len() != rows {
                return Err(
                    invalid_argument("all columns in a record batch must have the same length"),
                );
            }
        }
        for i in 0..n
            invariant
                n == columns@.len() == schema.fields@.len(),
                n > 0,
                fs == schema@.fields,
                cs == columns_view(columns@),
                rows == cs[0].values.len(),
                crate::first::first_where(n as nat, has_forbidden_null(fs, cs)) is None,
                forall|j: int| 0 <= j < n ==> (#[trigger] cs[j]).values.len() == rows,
                forall|j: int| 0 <= j < i ==> !(#[trigger] has_other_type(fs, cs)(j)),
                forall|j: int| 0 <= j < i ==> (#[trigger] cs[j]).typed(),
        {
            assert(cs[i as int] == columns@[i as int]@);
            assert(fs[i as int] == schema.fields@[i as int]@);
            if !same_type(columns[i].data_type(), &schema.fields[i].data_type) {
                proof {
                    crate::first::first_where_found(n as nat, has_other_type(fs, cs), i as int);
                }
                let mut message = concat3(
                    "column types must match schema types, expected ",
                    shown_type(&schema.fields[i].data_type).as_str(),
                    " but found ",
                );
                message.append(shown_type(columns[i].data_type()).as_str());
                message.append(" at column index ");
                message.append(decimal(i as u64).as_str());
                return Err(invalid_argument(message.as_str()));
            }
        }
        proof {
            crate::first::first_where_absent(n as nat, has_other_type(fs, cs));
            crate::first::first_where_spec(n as nat, has_forbidden_null(fs, cs));
            assert forall|i: int| 0 <= i < n implies {
                &&& (#[trigger] cs[i]).data_type == fs[i].data_type
                &&& !fs[i].nullable ==> !cs[i].has_null()
            } by {
                assert(!has_other_type(fs, cs)(i));
                assert(!has_forbidden_null(fs, cs)(i));
            }
        }
        Ok(RecordBatch { schema, columns, rows })
    }

    /// A batch without rows.
    pub fn new_empty(schema: Schema) -> (r: RecordBatch)
        ensures
            r@ == empty_batch(schema@),
            r@.wf(),
    {
        let mut columns: Vec<Column> = Vec::new();
        for i in 0..schema.fields.len()
            invariant
                columns@.len() == i,
                forall|j: int|
                    0 <= j < i ==> (#[trigger] columns@[j])@ == (ColumnView {
                        data_type: schema.fields@[j].data_type@,
                        values: Seq::empty(),
                    }),
        {
            let data_type = schema.fields[i].data_type.clone();
            let column = Column { data_type, values: Vec::new() };
            assert(column@.values =~= Seq::empty());
            columns.push(column);
        }
        assert(columns_view(columns@) =~= empty_batch(schema@).columns);
        RecordBatch { schema, columns, rows: 0 }
    }

    /// The rows of all the batches, which have the same fields, as one batch.
    pub fn concat(schema: Schema, batches: &Vec<RecordBatch>) -> (r: RecordBatch)
        requires
            forall|p: int|
                0 <= p < batches@.len() ==> (#[trigger] batches@[p])@.schema.fields
                    == schema@.fields,
            total_rows(batches_view(batches@)) <= usize::MAX,
        ensures
            r@ == concatenated(schema@, batches_view(batches@)),
            r@.wf(),
    {
        let ghost views = batches_view(batches@);
        let ghost fields = schema@.fields;
        let mut rows: usize = 0;
        for p in 0..batches.len()
            invariant
                views == batches_view(batches@),
                fields == schema@.fields,
                total_rows(views) <= usize::MAX,
                rows == total_rows(views.take(p as int)),
                forall|q: int|
                    0 <= q < batches@.len() ==> (#[trigger] views[q]).schema.fields == fields,
                forall|q: int| 0 <= q < p ==> (#[trigger] views[q]).wf(),
        {
            assert(views.take(p + 1).drop_last() =~= views.take(p as int));
            assert(views.take(p + 1).last() == batches@[p as int]@);
            proof {
                total_rows_grows(views, p + 1);
            }
            rows += batches[p].num_rows();
            assert(views[p as int] == batches@[p as int]@);
        }
        assert(views.take(views.len() as int) =~= views);
        let mut columns: Vec<Column> = Vec::new();
        for i in 0..schema.fields.len()
            invariant
                views == batches_view(batches@),
                fields == schema@.fields,
                forall|q: int|
                    0 <= q < batches@.len() ==> (#[trigger] views[q]).wf()
                        && views[q].schema.fields == fields,
                columns@.len() == i,
                forall|j: int|
                    0 <= j < i ==> (#[trigger] columns@[j])@ == concatenated(
                        schema@,
                        views,
                    ).columns[j],
        {
            let mut values: Vec<ScalarValue> = Vec::new();
            assert(crate::scalar::scalars(values@) =~= joined_values(views.take(0), i as int));
            for p in 0..batches.len()
                invariant
                    views == batches_view(batches@),
                    fields == schema@.fields,
                    i < fields.len(),
                    forall|q: int|
                        0 <= q < batches@.len() ==> (#[trigger] views[q]).wf()
                            && views[q].schema.fields == fields,
                    crate::scalar::scalars(values@) == joined_values(
                        views.take(p as int),
                        i as int,
                    ),
            {
                assert(views.take(p + 1).drop_last() =~= views.take(p as int));
                assert(views.take(p + 1).last() == batches@[p as int]@);
                assert(views[p as int] == batches@[p as int]@);
                let column = batches[p].column(i);
                let ghost before = crate::scalar::scalars(values@);
                let n = column.len();
                assert(column@.values.take(0) =~= Seq::empty());
                assert(before =~= before + column@.values.take(0));
                for k in 0..n
                    invariant
                        n == column@.values.len(),
                        crate::scalar::scalars(values@) == before + column@.values.take(k as int),
                {
                    let ghost so_far = values@;
                    values.push(column.value(k).clone());
                    assert(crate::scalar::scalars(values@) =~= crate::scalar::scalars(so_far).push(
                        column@.values[k as int],
                    ));
                    assert(column@.values.take(k + 1) =~= column@.values.take(k as int).push(
                        column@.values[k as int],
                    ));
                }
                assert(column@.values.take(n as int) =~= column@.values);
            }
            assert(views.take(views.len() as int) =~= views);
            let data_type = schema.fields[i].data_type.clone();
            proof {
                joined_values_fit(views, fields, i as int);
                assert forall|k: int| 0 <= k < values@.len() implies (
                #[trigger] values@[k])@.data_type == data_type@ by {
                    assert(values@[k]@ == joined_values(views, i as int)[k]);
                }
            }
            columns.push(Column { data_type, values });
        }
        proof {
            assert(columns_view(columns@) =~= concatenated(schema@, views).columns);
            concatenated_wf(schema@, views);
        }
        RecordBatch { schema, columns, rows }
    }

    /// The rows from one position up to another.
    pub fn slice(&self, from: usize, to: usize) -> (r: RecordBatch)
        requires
            from <= to <= self@.rows,
        ensures
            r@ == sliced(self@, from as int, to as int),
            r@.wf(),
    {
        proof {
            use_type_invariant(self);
        }
        let mut columns: Vec<Column> = Vec::new();
        for i in 0..self.columns.len()
            invariant
                self@.wf(),
                from <= to <= self@.rows,
                columns@.len() == i,
                forall|j: int|
                    0 <= j < i ==> (#[trigger] columns@[j])@ == sliced(
                        self@,
                        from as int,
                        to as int,
                    ).columns[j],
        {
            let column = &self.columns[i];
            assert(self@.columns[i as int] == column@);
            columns.push(column.slice(from, to));
        }
        assert(columns_view(columns@) =~= sliced(self@, from as int, to as int).columns);
        proof {
            sliced_wf(self@, from as int, to as int);
        }
        let schema = self.schema.clone();
        RecordBatch { schema, columns, rows: to - from }
    }

    pub fn schema(&self) -> (r: &Schema)
        ensures
            r@ == self@.schema,
            self@.wf(),
    {
        proof {
            use_type_invariant(self);
        }
        &self.schema
    }

    pub fn num_rows(&self) -> (r: usize)
        ensures
            r == self@.rows,
            self@.wf(),
    {
        proof {
            use_type_invariant(self);
        }
        self.rows
    }

    pub fn num_columns(&self) -> (r: usize)
        ensures
            r == self@.columns.len(),
            self@.wf(),
    {
        proof {
            use_type_invariant(self);
        }
        self.columns.len()
    }

    pub fn column(&self, i: usize) -> (r: &Column)
        requires
            i < self@.columns.len(),
        ensures
            r@ == self@.columns[i as int],
            self@.wf(),
    {
        proof {
            use_type_invariant(self);
        }
        &self.columns[i]
    }

    /// The position of the first column with a name.
    pub fn index_of(&self, name: &str) -> (r: Option<usize>)
        ensures
            match r {
                Some(i) => self@.index_of(name@) == Some(i as int) && i < self@.columns.len(),
                None => self@.index_of(name@) is None,
            },
            self@.wf(),
    {
        let n = self.num_columns();
        let ghost p = is_named(self@.schema.fields, name@);
        for i in 0..n
            invariant
                n == self@.columns.len(),
                self@.wf(),
                p == is_named(self@.schema.fields, name@),
                forall|j: int| 0 <= j < i ==> !(#[trigger] p(j)),
        {
            assert(self@.schema.fields[i as int] == self.schema.fields@[i as int]@);
            if same_text(self.schema.fields[i].name.as_str(), name) {
                proof {
                    crate::first::first_where_found(n as nat, p, i as int);
                }
                return Some(i);
            }
        }
        proof {
            crate::first::first_where_absent(n as nat, p);
        }
        None
    }

    /// The first column with a name.
    pub fn column_by_name(&self, name: &str) -> (r: Option<&Column>)
        ensures
            match r {
                Some(c) => self@.column_by_name(name@) == Some(c@) && c@.values.len() == self@.rows
                    && c@.typed(),
                None => self@.column_by_name(name@) is None,
            },
            self@.wf(),
    {
        match self.index_of(name) {
            Some(i) => Some(self.column(i)),
            None => None,
        }
    }
}

impl Clone for RecordBatch {
    fn clone(&self) -> (r: Self)
        ensures
            r@ == self@,
    {
        proof {
            use_type_invariant(self);
        }
        let mut columns: Vec<Column> = Vec::new();
        for i in 0..self.columns.len()
            invariant
                columns@.len() == i,
                forall|j: int| 0 <= j < i ==> (#[trigger] columns@[j])@ == self.columns@[j]@,
        {
            columns.push(self.columns[i].clone());
        }
        let schema = self.schema.clone();
        assert(columns_view(columns@) =~= columns_view(self.columns@));
        RecordBatch { schema, columns, rows: self.rows }
    }
}

/// The rows of all the batches.
pub open spec fn total_rows(batches: Seq<BatchView>) -> nat
    decreases batches.len(),
{
    if batches.len() == 0 {
        0
    } else {
        total_rows(batches.drop_last()) + batches.last().rows
    }
}

/// The values of a column in all the batches, in order.
pub open spec fn joined_values(batches: Seq<BatchView>, i: int) -> Seq<ScalarView>
    decreases batches.len(),
{
    if batches.len() == 0 {
        Seq::empty()
    } else {
        joined_values(batches.drop_last(), i) + batches.last().columns[i].values
    }
}

/// The rows of all the batches, in order, as one batch.
pub open spec fn concatenated(schema: SchemaView, batches: Seq<BatchView>) -> BatchView {
    BatchView {
        schema,
        columns: Seq::new(
            schema.fields.len(),
            |i: int|
                ColumnView {
                    data_type: schema.fields[i].data_type,
                    values: joined_values(batches, i),
                },
        ),
        rows: total_rows(batches),
    }
}

/// The rows of a batch from one position up to another.
pub open spec fn sliced(b: BatchView, from: int, to: int) -> BatchView {
    BatchView {
        schema: b.schema,
        columns: Seq::new(
            b.columns.len(),
            |i: int|
                ColumnView {
                    data_type: b.columns[i].data_type,
                    values: b.columns[i].values.subrange(from, to),
                },
        ),
        rows: (to - from) as nat,
    }
}

/// The first batches have no more rows than all of them.
proof fn total_rows_grows(batches: Seq<BatchView>, k: int)
    requires
        0 <= k <= batches.len(),
    ensures
        total_rows(batches.take(k)) <= total_rows(batches),
    decreases batches.len(),
{
    if k < batches.len() {
        assert(batches.drop_last().take(k) =~= batches.take(k));
        total_rows_grows(batches.drop_last(), k);
    } else {
        assert(batches.take(k) =~= batches);
    }
}

/// A column of batches with the given fields: as long as the batches together,
/// of the field's type, and without nulls where the field has none.
proof fn joined_values_fit(batches: Seq<BatchView>, fields: Seq<FieldView>, i: int)
    requires
        0 <= i < fields.len(),
        forall|p: int|
            0 <= p < batches.len() ==> (#[trigger] batches[p]).wf() && batches[p].schema.fields
                == fields,
    ensures
        joined_values(batches, i).len() == total_rows(batches),
        forall|k: int|
            0 <= k < joined_values(batches, i).len() ==> (#[trigger] joined_values(
                batches,
                i,
            )[k]).data_type == fields[i].data_type && (!fields[i].nullable ==> !joined_values(
                batches,
                i,
            )[k].is_null()),
    decreases batches.len(),
{
    if batches.len() > 0 {
        let before = batches.drop_last();
        assert forall|p: int| 0 <= p < before.len() implies (#[trigger] before[p]).wf()
            && before[p].schema.fields == fields by {
            assert(before[p] == batches[p]);
        }
        joined_values_fit(before, fields, i);
        let last = batches[batches.len() - 1];
        assert(last.wf());
        let column = last.columns[i];
        assert forall|k: int| 0 <= k < column.values.len() implies (
        #[trigger] column.values[k]).data_type == fields[i].data_type && (!fields[i].nullable
            ==> !column.values[k].is_null()) by {}
    }
}

/// Batches with the same fields make a batch.
pub proof fn concatenated_wf(schema: SchemaView, batches: Seq<BatchView>)
    requires
        forall|p: int|
            0 <= p < batches.len() ==> (#[trigger] batches[p]).wf() && batches[p].schema.fields
                == schema.fields,
    ensures
        concatenated(schema, batches).wf(),
{
    let b = concatenated(schema, batches);
    assert forall|i: int| #![trigger b.columns[i]] 0 <= i < b.columns.len() implies {
        &&& b.columns[i].values.len() == b.rows
        &&& b.columns[i].typed()
        &&& !schema.fields[i].nullable ==> !b.columns[i].has_null()
    } by {
        joined_values_fit(batches, schema.fields, i);
    }
}

/// Some rows of a batch make a batch.
pub proof fn sliced_wf(b: BatchView, from: int, to: int)
    requires
        b.wf(),
        0 <= from <= to <= b.rows,
    ensures
        sliced(b, from, to).wf(),
{
    let s = sliced(b, from, to);
    assert forall|i: int| #![trigger s.columns[i]] 0 <= i < s.columns.len() implies {
        &&& s.columns[i].data_type == s.schema.fields[i].data_type
        &&& s.columns[i].values.len() == s.rows
        &&& s.columns[i].typed()
        &&& !s.schema.fields[i].nullable ==> !s.columns[i].has_null()
    } by {
        let c = b.columns[i];
        assert forall|k: int| 0 <= k < s.columns[i].values.len() implies
            #[trigger] s.columns[i].values[k] == c.values[k + from] by {}
    }
}

/// A batch without rows.
pub open spec fn empty_batch(schema: SchemaView) -> BatchView {
    BatchView {
        schema,
        columns: Seq::new(
            schema.fields.len(),
            |i: int|
                ColumnView { data_type: schema.fields[i].data_type, values: Seq::empty() },
        ),
        rows: 0,
    }
}

/// The views of a vector of batches.
pub open spec fn batches_view(v: Seq<RecordBatch>) -> Seq<BatchView> {
    Seq::new(v.len(), |i: int| v[i]@)
}

/// A column is found by its name: the first with that name, and none where no
/// field has it.
pub proof fn column_is_found_by_name(b: BatchView, name: Seq<char>, i: int)
    requires
        0 <= i <= b.schema.fields.len(),
        forall|j: int| 0 <= j < i ==> (#[trigger] b.schema.fields[j]).name != name,
    ensures
        i < b.schema.fields.len() && b.schema.fields[i].name == name ==> b.column_by_name(name)
            == Some(b.columns[i]) && b.index_of(name) == Some(i),
        i == b.schema.fields.len() ==> b.column_by_name(name) is None && b.index_of(name) is None,
{
    let p = is_named(b.schema.fields, name);
    let n = b.schema.fields.len();
    if i < n && b.schema.fields[i].name == name {
        crate::first::first_where_found(n, p, i);
    } else if i == n {
        crate::first::first_where_absent(n, p);
    }
}

/// The number of nulls is that of the values without a key.
pub proof fn null_count_counts_nulls(values: Seq<ScalarView>)
    ensures
        null_count_of(values) == values.filter(|v: ScalarView| v.key is None).len(),
    decreases values.len(),
{
    let f = |v: ScalarView| v.key is None;
    reveal(Seq::filter);
    if values.len() > 0 {
        null_count_counts_nulls(values.drop_last());
        assert(values.filter(f).len() == values.drop_last().filter(f).len() + if f(values.last()) {
            1nat
        } else {
            0nat
        });
    }
}

/// A row id is the number that its value holds, over all 64 bits; so for counts
/// over all 32.
pub proof fn numbers_read_back(n: u64, m: u32)
    ensures
        u64_of(ScalarValue::UInt64(Some(n))@) == n,
        u32_of(ScalarValue::UInt32(Some(m))@) == m,
        u64_of(ScalarValue::UInt64(None)@) == 0,
        u32_of(ScalarValue::UInt32(None)@) == 0,
        u64_scalar(n) == ScalarValue::UInt64(Some(n))@,
        u32_scalar(m) == ScalarValue::UInt32(Some(m))@,
{
}

/// Batches have as many rows as their parts together.
pub proof fn rows_add_up(a: Seq<BatchView>, b: Seq<BatchView>, one: BatchView)
    ensures
        total_rows(a + b) == total_rows(a) + total_rows(b),
        total_rows(seq![one]) == one.rows,
        total_rows(Seq::<BatchView>::empty()) == 0,
    decreases b.len(),
{
    reveal_with_fuel(total_rows, 2);
    assert(seq![one].drop_last() =~= Seq::<BatchView>::empty());
    assert(seq![one].last() == one);
    if b.len() == 0 {
        assert(a + b =~= a);
    } else {
        rows_add_up(a, b.drop_last(), one);
        assert((a + b).drop_last() =~= a + b.drop_last());
        assert((a + b).last() == b.last());
    }
}

proof fn joined_row(batches: Seq<BatchView>, i: int, p: int, k: int)
    requires
        0 <= p < batches.len(),
        0 <= k < batches[p].rows,
        forall|q: int|
            0 <= q < batches.len() ==> (#[trigger] batches[q]).columns[i].values.len()
                == batches[q].rows,
    ensures
        joined_values(batches, i).len() == total_rows(batches),
        0 <= total_rows(batches.take(p)) + k < joined_values(batches, i).len(),
        joined_values(batches, i)[total_rows(batches.take(p)) + k]
            == batches[p].columns[i].values[k],
    decreases batches.len(),
{
    let before = batches.drop_last();
    let last = batches.len() - 1;
    joined_len(batches, i);
    joined_len(before, i);
    assert(batches.last() == batches[last]);
    if p < last {
        assert(before[p] == batches[p]);
        assert forall|q: int| 0 <= q < before.len() implies (
        #[trigger] before[q]).columns[i].values.len() == before[q].rows by {
            assert(before[q] == batches[q]);
        }
        joined_row(before, i, p, k);
        assert(before.take(p) =~= batches.take(p));
    } else {
        assert(batches.take(p) =~= before);
    }
}

proof fn joined_len(batches: Seq<BatchView>, i: int)
    requires
        forall|q: int|
            0 <= q < batches.len() ==> (#[trigger] batches[q]).columns[i].values.len()
                == batches[q].rows,
    ensures
        joined_values(batches, i).len() == total_rows(batches),
    decreases batches.len(),
{
    if batches.len() > 0 {
        let before = batches.drop_last();
        assert forall|q: int| 0 <= q < before.len() implies (
        #[trigger] before[q]).columns[i].values.len() == before[q].rows by {
            assert(before[q] == batches[q]);
        }
        joined_len(before, i);
        assert(batches.last() == batches[batches.len() - 1]);
    }
}

/// Joining batches keeps every row: row `k` of batch `p` comes after all rows of
/// the batches before it, with its values in their columns. The batch that is
/// made has the given schema and no other rows.
pub proof fn joined_batches_keep_rows(
    schema: SchemaView,
    batches: Seq<BatchView>,
    p: int,
    k: int,
    i: int,
)
    requires
        0 <= p < batches.len(),
        0 <= k < batches[p].rows,
        0 <= i < schema.fields.len(),
        forall|q: int|
            0 <= q < batches.len() ==> (#[trigger] batches[q]).wf()
                && batches[q].schema.fields == schema.fields,
    ensures
        ({
            let b = concatenated(schema, batches);
            let before = total_rows(batches.take(p));
            &&& b.schema == schema
            &&& b.rows == total_rows(batches)
            &&& b.columns.len() == schema.fields.len()
            &&& 0 <= before + k < b.rows
            &&& b.columns[i].values.len() == b.rows
            &&& b.columns[i].values[before + k] == batches[p].columns[i].values[k]
        }),
{
    assert forall|q: int| 0 <= q < batches.len() implies (
    #[trigger] batches[q]).columns[i].values.len() == batches[q].rows by {
        assert(batches[q].wf());
        assert(batches[q].columns[i].values.len() == batches[q].rows);
    }
    joined_row(batches, i, p, k);
}

/// A slice has the rows from its start up to its end, and nothing else changed;
/// so have gathered columns the values at the given places.
pub proof fn slices_keep_rows(b: BatchView, from: int, to: int, i: int, k: int)
    requires
        b.wf(),
        0 <= from <= to <= b.rows,
        0 <= i < b.columns.len(),
        0 <= k < to - from,
    ensures
        sliced(b, from, to).schema == b.schema,
        sliced(b, from, to).rows == to - from,
        sliced(b, from, to).columns.len() == b.columns.len(),
        sliced(b, from, to).columns[i].data_type == b.columns[i].data_type,
        sliced(b, from, to).columns[i].values.len() == to - from,
        sliced(b, from, to).columns[i].values[k] == b.columns[i].values[from + k],
{
}

/// Gathered columns have the values at the given places.
pub proof fn gathering_keeps_values(c: ColumnView, positions: Seq<usize>, k: int)
    requires
        0 <= k < positions.len(),
    ensures
        gathered(c, positions).data_type == c.data_type,
        gathered(c, positions).values.len() == positions.len(),
        gathered(c, positions).values[k] == c.values[positions[k] as int],
{
}

/// Columns make a batch exactly when there is one for each field and at least
/// one, all of one length, each of its field's type and without nulls where the
/// field has none.
pub proof fn columns_make_a_batch(schema: SchemaView, columns: Seq<ColumnView>)
    ensures
        batch_defect(schema, columns) is None <==> {
            &&& columns.len() == schema.fields.len()
            &&& columns.len() > 0
            &&& forall|i: int|
                0 <= i < columns.len() ==> {
                    &&& (#[trigger] columns[i]).values.len() == columns[0].values.len()
                    &&& columns[i].data_type == schema.fields[i].data_type
                    &&& !schema.fields[i].nullable ==> forall|k: int|
                        0 <= k < columns[i].values.len() ==> (
                        #[trigger] columns[i].values[k]).key is Some
                }
        },
{
    let n = columns.len();
    let null = has_forbidden_null(schema.fields, columns);
    let other = has_other_type(schema.fields, columns);
    crate::first::first_where_spec(n, null);
    crate::first::first_where_spec(n, other);
    if batch_defect(schema, columns) is None {
        assert forall|i: int| 0 <= i < columns.len() implies {
            &&& (#[trigger] columns[i]).values.len() == columns[0].values.len()
            &&& columns[i].data_type == schema.fields[i].data_type
            &&& !schema.fields[i].nullable ==> forall|k: int|
                0 <= k < columns[i].values.len() ==> (#[trigger] columns[i].values[k]).key is Some
        } by {
            assert(!null(i) && !other(i));
        }
    }
}

/// Values make a column exactly when there is one at least and each differs from
/// the first at most in the parameters of its type and is one that Arrow has in
/// it. Each keeps its key, and all have the type of the first.
pub proof fn values_make_a_column(values: Seq<ScalarView>)
    ensures
        values_defect(values) is None <==> values.len() > 0 && forall|i: int|
            0 <= i < values.len() ==> crate::rows::fits_type(
                values[0].data_type,
                #[trigger] values[i],
            ),
        values.len() > 0 ==> column_of(values).values.len() == values.len() && column_of(
            values,
        ).data_type == values[0].data_type,
        forall|i: int|
            0 <= i < values.len() ==> (#[trigger] column_of(values).values[i]).key
                == values[i].key && column_of(values).values[i].data_type == values[0].data_type,
{
    let bad = misfits(values);
    crate::first::first_where_spec(values.len(), bad);
    if values_defect(values) is None {
        assert forall|i: int| 0 <= i < values.len() implies crate::rows::fits_type(
            values[0].data_type,
            #[trigger] values[i],
        ) by {
            assert(!bad(i));
        }
    }
}

/// Columns in a contract are the columns themselves, in order.
pub proof fn columns_show_themselves(v: Seq<Column>, i: int)
    ensures
        columns_view(v).len() == v.len(),
        0 <= i < v.len() ==> columns_view(v)[i] == v[i]@,
{
}

/// Batches in a contract are the batches themselves, in order.
pub proof fn batches_show_themselves(v: Seq<RecordBatch>, i: int)
    ensures
        batches_view(v).len() == v.len(),
        0 <= i < v.len() ==> batches_view(v)[i] == v[i]@,
{
}

/// A batch without rows has a column without values, of its type, for each field.
pub proof fn empty_batch_has_no_rows(schema: SchemaView, i: int)
    ensures
        empty_batch(schema).rows == 0,
        empty_batch(schema).schema == schema,
        empty_batch(schema).columns.len() == schema.fields.len(),
        0 <= i < schema.fields.len() ==> empty_batch(schema).columns[i].values.len() == 0
            && empty_batch(schema).columns[i].data_type == schema.fields[i].data_type,
{
}

} // verus!
