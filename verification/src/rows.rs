//! The row format: compound keys as byte strings that compare like the values
//! they stand for.
use vstd::prelude::*;

use arrow_array::types::{
    ArrowPrimitiveType, Decimal256Type, Float16Type, Float32Type, Float64Type,
    IntervalDayTimeType, IntervalMonthDayNanoType,
};
use arrow_row::{RowConverter, SortField};
use arrow_schema::SortOptions;
use datafusion_common::{DataFusionError, ScalarValue as DfScalar};

use crate::batch::{Column, ColumnView};
use crate::datatype::{clone_types, same_variant, DataType, DataTypeOf, DataTypeView};
use crate::error::{Error, ErrorOf, ErrorView};
use crate::scalar::{Order, ScalarKey, ScalarValue, ScalarView};
use crate::text::concat2;

verus! {

/// The scalar value of `datafusion_common`.
#[verifier::external_type_specification]
#[verifier::external_body]
pub struct ExDfScalar(DfScalar);

/// The value as a `datafusion_common::ScalarValue`, variant for variant.
#[verifier::external_body]
fn df_scalar(v: &ScalarValue) -> DfScalar {
    match v {
        ScalarValue::Null => DfScalar::Null,
        ScalarValue::Boolean(x) => DfScalar::Boolean(*x),
        ScalarValue::Int8(x) => DfScalar::Int8(*x),
        ScalarValue::Int16(x) => DfScalar::Int16(*x),
        ScalarValue::Int32(x) => DfScalar::Int32(*x),
        ScalarValue::Int64(x) => DfScalar::Int64(*x),
        ScalarValue::UInt8(x) => DfScalar::UInt8(*x),
        ScalarValue::UInt16(x) => DfScalar::UInt16(*x),
        ScalarValue::UInt32(x) => DfScalar::UInt32(*x),
        ScalarValue::UInt64(x) => DfScalar::UInt64(*x),
        other => df_text(other),
    }
}

/// The texts and byte strings of `df_scalar`.
#[verifier::external_body]
fn df_text(v: &ScalarValue) -> DfScalar {
    match v {
        ScalarValue::Utf8(x) => DfScalar::Utf8(x.clone()),
        ScalarValue::LargeUtf8(x) => DfScalar::LargeUtf8(x.clone()),
        ScalarValue::Utf8View(x) => DfScalar::Utf8View(x.clone()),
        ScalarValue::Binary(x) => DfScalar::Binary(x.clone()),
        ScalarValue::LargeBinary(x) => DfScalar::LargeBinary(x.clone()),
        ScalarValue::BinaryView(x) => DfScalar::BinaryView(x.clone()),
        ScalarValue::FixedSizeBinary(n, x) => DfScalar::FixedSizeBinary(*n, x.clone()),
        other => df_date(other),
    }
}

/// The dates, times and durations of `df_scalar`.
#[verifier::external_body]
fn df_date(v: &ScalarValue) -> DfScalar {
    match v {
        ScalarValue::Date32(x) => DfScalar::Date32(*x),
        ScalarValue::Date64(x) => DfScalar::Date64(*x),
        ScalarValue::Time32Second(x) => DfScalar::Time32Second(*x),
        ScalarValue::Time32Millisecond(x) => DfScalar::Time32Millisecond(*x),
        ScalarValue::Time64Microsecond(x) => DfScalar::Time64Microsecond(*x),
        ScalarValue::Time64Nanosecond(x) => DfScalar::Time64Nanosecond(*x),
        ScalarValue::DurationSecond(x) => DfScalar::DurationSecond(*x),
        ScalarValue::DurationMillisecond(x) => DfScalar::DurationMillisecond(*x),
        ScalarValue::DurationMicrosecond(x) => DfScalar::DurationMicrosecond(*x),
        ScalarValue::DurationNanosecond(x) => DfScalar::DurationNanosecond(*x),
        other => df_stamp(other),
    }
}

/// The timestamps of `df_scalar`.
#[verifier::external_body]
fn df_stamp(v: &ScalarValue) -> DfScalar {
    match v {
        ScalarValue::TimestampSecond(x, z) => {
            DfScalar::TimestampSecond(*x, z.as_deref().map(Into::into))
        },
        ScalarValue::TimestampMillisecond(x, z) => {
            DfScalar::TimestampMillisecond(*x, z.as_deref().map(Into::into))
        },
        ScalarValue::TimestampMicrosecond(x, z) => {
            DfScalar::TimestampMicrosecond(*x, z.as_deref().map(Into::into))
        },
        other => df_number(other),
    }
}

/// The longer floats of `df_scalar`, from their bits, and more numbers.
#[verifier::external_body]
fn df_number(v: &ScalarValue) -> DfScalar {
    match v {
        ScalarValue::TimestampNanosecond(x, z) => {
            DfScalar::TimestampNanosecond(*x, z.as_deref().map(Into::into))
        },
        ScalarValue::Decimal128(x, p, s) => DfScalar::Decimal128(*x, *p, *s),
        ScalarValue::Float32(x) => {
            DfScalar::Float32(x.map(<<Float32Type as ArrowPrimitiveType>::Native>::from_bits))
        },
        ScalarValue::Float64(x) => {
            DfScalar::Float64(x.map(<<Float64Type as ArrowPrimitiveType>::Native>::from_bits))
        },
        other => df_decimal(other),
    }
}

/// The decimals of `df_scalar` and the shortest floats, from their bits.
#[verifier::external_body]
fn df_decimal(v: &ScalarValue) -> DfScalar {
    match v {
        ScalarValue::Float16(x) => {
            DfScalar::Float16(x.map(<<Float16Type as ArrowPrimitiveType>::Native>::from_bits))
        },
        ScalarValue::Decimal32(x, p, s) => DfScalar::Decimal32(*x, *p, *s),
        ScalarValue::Decimal64(x, p, s) => DfScalar::Decimal64(*x, *p, *s),
        ScalarValue::Decimal256(x, p, s) => {
            let wide = x.map(|w| {
                <<Decimal256Type as ArrowPrimitiveType>::Native>::from_parts(w.low, w.high)
            });
            DfScalar::Decimal256(wide, *p, *s)
        },
        other => df_interval(other),
    }
}

/// The intervals of `df_scalar`. There is no other variant left.
#[verifier::external_body]
fn df_interval(v: &ScalarValue) -> DfScalar {
    match v {
        ScalarValue::IntervalYearMonth(x) => DfScalar::IntervalYearMonth(*x),
        ScalarValue::IntervalDayTime(x) => DfScalar::IntervalDayTime(
            x.map(|i| IntervalDayTimeType::make_value(i.days, i.milliseconds)),
        ),
        ScalarValue::IntervalMonthDayNano(x) => DfScalar::IntervalMonthDayNano(
            x.map(|i| IntervalMonthDayNanoType::make_value(i.months, i.days, i.nanoseconds)),
        ),
        _ => DfScalar::Null,
    }
}

/// The text of a type.
pub uninterp spec fn type_text(t: DataTypeView) -> Seq<char>;

/// `Display` of `arrow_schema::DataType`.
#[verifier::external_body]
pub(crate) fn shown_type(t: &DataType) -> (r: String)
    ensures
        r@ == type_text(t@),
{
    df_scalar(&ScalarValue::null_of(t)).data_type().to_string()
}

/// An array of the type takes the value: the two differ at most in the
/// parameters of their types, and the value is one that Arrow has in the type.
pub open spec fn fits_type(t: DataTypeView, v: ScalarView) -> bool {
    &&& crate::datatype::variant_of(v.data_type) == crate::datatype::variant_of(t)
    &&& encodable(ColumnView { data_type: t, values: seq![v] })
}

/// Whether an array of the type takes the value.
pub fn takes_value(t: &DataType, v: &ScalarValue) -> (r: bool)
    ensures
        r == fits_type(t@, v@),
{
    let ghost column = ColumnView { data_type: t@, values: seq![v@] };
    assert(column.values[0] == v@);
    if !same_variant(&v.data_type(), t) {
        return false;
    }
    match (t, v) {
        (DataTypeOf::Decimal32(p, s), _) => is_valid_decimal(*p, *s, 9),
        (DataTypeOf::Decimal64(p, s), _) => is_valid_decimal(*p, *s, 18),
        (DataTypeOf::Decimal128(p, s), _) => is_valid_decimal(*p, *s, 38),
        (DataTypeOf::Decimal256(p, s), _) => is_valid_decimal(*p, *s, 76),
        (DataTypeOf::FixedSizeBinary(n), ScalarValue::FixedSizeBinary(_, x)) => {
            let right = match x {
                Some(bytes) => bytes.len() as i128 == *n as i128,
                None => true,
            };
            *n >= 0 && right
        },
        _ => true,
    }
}

/// The error with which an array of a type refuses a value.
pub uninterp spec fn array_error(t: DataTypeView, v: ScalarView) -> ErrorView;

/// `ScalarValue::iter_to_array` of `datafusion_common` on a null of the type
/// and a value that an array of the type does not take. It fails; its error is
/// the library's of the same kind.
#[verifier::external_body]
pub(crate) fn refused_value(t: &DataType, v: &ScalarValue) -> (r: Error)
    requires
        !fits_type(t@, v@),
    ensures
        r@ == array_error(t@, v@),
{
    let scalars = vec![df_scalar(&ScalarValue::null_of(t)), df_scalar(v)];
    match DfScalar::iter_to_array(scalars).unwrap_err() {
        DataFusionError::ArrowError(e, _) => ErrorOf::Arrow { message: e.to_string() },
        e @ DataFusionError::Execution(_) => ErrorOf::Execution { message: e.to_string() },
        e => ErrorOf::IO { message: e.to_string() },
    }
}

/// How row `i` of some columns compares with row `j` of others, by the first
/// `k` columns: the first column that differs decides, null comes first.
pub open spec fn row_order(
    a: Seq<ColumnView>,
    i: int,
    b: Seq<ColumnView>,
    j: int,
    k: nat,
) -> Order
    decreases k,
{
    if k == 0 {
        Order::Equal
    } else {
        match row_order(a, i, b, j, (k - 1) as nat) {
            Order::Equal => crate::scalar::opt_key_order(
                a[k - 1].values[i].key,
                b[k - 1].values[j].key,
            ),
            o => o,
        }
    }
}

/// The converter of `arrow_row`.
#[verifier::external_type_specification]
#[verifier::external_body]
pub struct ExRowConverter(RowConverter);

/// Keys are sorted ascending.
const DESCENDING: bool = false;

/// Nulls come before any other value.
const NULLS_FIRST: bool = true;

/// `RowConverter::new` with one field per type, all sorted the same way. It
/// supports every type that is not nested, and the types here are none.
#[verifier::external_body]
fn row_converter(types: &Vec<DataType>, descending: bool, nulls_first: bool) -> (r: Result<
    RowConverter,
    String,
>)
    ensures
        r is Ok,
{
    let options = SortOptions { descending, nulls_first };
    let arrow_type = |t: &DataType| df_scalar(&ScalarValue::null_of(t)).data_type();
    let field = |t| SortField::new_with_options(arrow_type(t), options);
    RowConverter::new(types.iter().map(field).collect()).map_err(|e| e.to_string())
}

/// The bytes of a text or a byte string.
pub open spec fn byte_len(v: ScalarView) -> nat {
    match v.key {
        Some(ScalarKey::Text(s)) => vstd::utf8::encode_utf8(s).len(),
        Some(ScalarKey::Bytes(b)) => b.len(),
        _ => 0,
    }
}

/// The bytes of the texts and byte strings among the values.
pub open spec fn total_bytes(values: Seq<ScalarView>) -> nat
    decreases values.len(),
{
    if values.len() == 0 {
        0
    } else {
        total_bytes(values.drop_last()) + byte_len(values.last())
    }
}

/// The bytes of a column can be addressed by the 32-bit offsets or lengths of
/// its type. Arrays of fixed-size byte strings are made with one null more.
pub open spec fn addressable(c: ColumnView) -> bool {
    match c.data_type {
        DataTypeOf::Utf8 | DataTypeOf::Binary => total_bytes(c.values) <= i32::MAX,
        DataTypeOf::Utf8View | DataTypeOf::BinaryView => {
            &&& c.values.len() < u32::MAX
            &&& forall|i: int|
                0 <= i < c.values.len() ==> byte_len(#[trigger] c.values[i]) < u32::MAX
        },
        DataTypeOf::FixedSizeBinary(n) => (c.values.len() + 1) * n <= i32::MAX,
        _ => true,
    }
}

/// One column per type, of that type, all of one length.
pub open spec fn columns_fit(types: Seq<DataTypeView>, columns: Seq<ColumnView>) -> bool {
    &&& columns.len() == types.len()
    &&& forall|i: int|
        0 <= i < columns.len() ==> (#[trigger] columns[i]).data_type == types[i]
            && columns[i].values.len() == columns[0].values.len()
}

/// A decimal has at least one digit, no more than its type can hold, and at most
/// all of them behind the point.
pub open spec fn valid_decimal(precision: u8, scale: i8, digits: u8) -> bool {
    1 <= precision <= digits && scale <= precision
}

fn is_valid_decimal(precision: u8, scale: i8, digits: u8) -> (r: bool)
    ensures
        r == valid_decimal(precision, scale, digits),
{
    1 <= precision && precision <= digits && scale as i16 <= precision as i16
}

/// Arrow has the column's type and, in it, every value of the column: the
/// precision and scale of decimals are possible, and fixed-size byte strings
/// are as wide as the type says.
pub open spec fn encodable(c: ColumnView) -> bool {
    match c.data_type {
        DataTypeOf::Decimal32(p, s) => valid_decimal(p, s, 9),
        DataTypeOf::Decimal64(p, s) => valid_decimal(p, s, 18),
        DataTypeOf::Decimal128(p, s) => valid_decimal(p, s, 38),
        DataTypeOf::Decimal256(p, s) => valid_decimal(p, s, 76),
        DataTypeOf::FixedSizeBinary(n) => n >= 0 && forall|i: int|
            0 <= i < c.values.len() ==> ((#[trigger] c.values[i]).is_null() || byte_len(
                c.values[i],
            ) == n),
        _ => true,
    }
}

pub open spec fn all_encodable(columns: Seq<ColumnView>) -> bool {
    forall|i: int| 0 <= i < columns.len() ==> encodable(#[trigger] columns[i])
}

/// The rows that the row format gives to some columns, or why it refuses them.
pub uninterp spec fn converted_rows(types: Seq<DataTypeView>, columns: Seq<ColumnView>) -> Result<
    Seq<Seq<u8>>,
    Seq<char>,
>;

/// The views of a vector of byte strings.
pub open spec fn byte_rows(v: Seq<Vec<u8>>) -> Seq<Seq<u8>> {
    Seq::new(v.len(), |i: int| v[i]@)
}

/// `RowConverter::convert_columns` of a converter with one ascending,
/// nulls-first field per type. There is one row per row of the columns, and
/// rows of the same types compare as byte strings as their values do column by
/// column. Columns of other types, of different lengths or in another number
/// are refused, and so are columns that Arrow cannot hold, whose arrays
/// `ScalarValue::iter_to_array` of `datafusion_common` refuses to make; no
/// others are.
#[verifier::external_body]
fn rows_of(
    types: &Vec<DataType>,
    descending: bool,
    nulls_first: bool,
    columns: &Vec<Column>,
) -> (r: Result<Vec<Vec<u8>>, String>)
    requires
        !descending,
        nulls_first,
        forall|i: int| 0 <= i < columns@.len() ==> addressable((#[trigger] columns@[i])@),
    ensures
        r is Ok == (columns_fit(
            crate::datatype::types(types@),
            crate::batch::columns_view(columns@),
        ) && all_encodable(crate::batch::columns_view(columns@))),
        match (r, converted_rows(crate::datatype::types(types@), crate::batch::columns_view(columns@))) {
            (Ok(rows), Ok(v)) => byte_rows(rows@) == v,
            (Err(e), Err(v)) => e@ == v,
            _ => false,
        },
        r matches Ok(rows) ==> rows@.len() == (if columns@.len() == 0 {
            0
        } else {
            columns@[0]@.values.len()
        }),
        r matches Ok(rows) ==> forall|other: Seq<ColumnView>, i: int, j: int|
            #![trigger converted_rows(crate::datatype::types(types@), other)->Ok_0[j], rows@[i]]
            converted_rows(crate::datatype::types(types@), other) is Ok && 0 <= i < rows@.len() && 0
                <= j < converted_rows(crate::datatype::types(types@), other)->Ok_0.len()
                ==> crate::compound::bytes_compare(
                rows@[i]@,
                converted_rows(crate::datatype::types(types@), other)->Ok_0[j],
            ) == row_order(
                crate::batch::columns_view(columns@),
                i,
                other,
                j,
                columns@.len(),
            ),
{
    let mut arrays = Vec::new();
    for c in columns {
        let null = df_scalar(&ScalarValue::null_of(c.data_type()));
        let values = (0..c.len()).map(|i| df_scalar(c.value(i)));
        let array = DfScalar::iter_to_array(std::iter::once(null).chain(values));
        arrays.push(array.map_err(|e| e.to_string())?.slice(1, c.len()));
    }
    let rows = row_converter(types, descending, nulls_first)?.convert_columns(&arrays).map_err(|e| e.to_string())?;
    Ok(rows.iter().map(|row| row.as_ref().to_vec()).collect())
}

/// Rows with the same values compare as equal.
pub proof fn same_values_compare_equal(
    a: Seq<ColumnView>,
    i: int,
    b: Seq<ColumnView>,
    j: int,
    k: nat,
)
    requires
        forall|c: int| 0 <= c < k ==> (#[trigger] a[c]).values[i].key == b[c].values[j].key,
    ensures
        row_order(a, i, b, j, k) == Order::Equal,
    decreases k,
{
    if k > 0 {
        same_values_compare_equal(a, i, b, j, (k - 1) as nat);
        let x = a[k - 1].values[i];
        let y = ScalarView { data_type: x.data_type, key: b[k - 1].values[j].key };
        crate::scalar::scalar_order_equal(x, y);
    }
}

/// How two rows compare depends on their values only.
pub proof fn same_values_same_order(
    a: Seq<ColumnView>,
    i: int,
    x: Seq<ColumnView>,
    l: int,
    b: Seq<ColumnView>,
    j: int,
    y: Seq<ColumnView>,
    m: int,
    k: nat,
)
    requires
        forall|c: int| 0 <= c < k ==> (#[trigger] a[c]).values[i].key == x[c].values[l].key,
        forall|c: int| 0 <= c < k ==> (#[trigger] b[c]).values[j].key == y[c].values[m].key,
    ensures
        row_order(a, i, b, j, k) == row_order(x, l, y, m, k),
    decreases k,
{
    if k > 0 {
        same_values_same_order(a, i, x, l, b, j, y, m, (k - 1) as nat);
        assert(a[k - 1].values[i].key == x[k - 1].values[l].key);
        assert(b[k - 1].values[j].key == y[k - 1].values[m].key);
    }
}

/// A converter to the row format: ascending, nulls first.
#[derive(Debug)]
pub struct CompoundRowConverter {
    data_types: Vec<DataType>,
}

impl CompoundRowConverter {
    pub closed spec fn type_views(&self) -> Seq<DataTypeView> {
        crate::datatype::types(self.data_types@)
    }

    /// The rows of some columns. They compare as the values do; columns that do
    /// not fit the converter's types are refused.
    pub fn convert_columns(&self, columns: &Vec<Column>) -> (r: Result<Vec<Vec<u8>>, String>)
        requires
            forall|i: int| 0 <= i < columns@.len() ==> addressable((#[trigger] columns@[i])@),
        ensures
            r is Ok <==> columns_fit(self.type_views(), crate::batch::columns_view(columns@))
                && all_encodable(crate::batch::columns_view(columns@)),
            match (r, converted_rows(self.type_views(), crate::batch::columns_view(columns@))) {
                (Ok(rows), Ok(v)) => byte_rows(rows@) == v,
                (Err(e), Err(v)) => e@ == v,
                _ => false,
            },
            r matches Ok(rows) ==> rows@.len() == (if columns@.len() == 0 {
                0
            } else {
                columns@[0]@.values.len()
            }),
            r matches Ok(rows) ==> forall|other: Seq<ColumnView>, i: int, j: int|
                #![trigger converted_rows(self.type_views(), other)->Ok_0[j], rows@[i]]
                converted_rows(self.type_views(), other) is Ok && 0 <= i < rows@.len() && 0 <= j
                    < converted_rows(self.type_views(), other)->Ok_0.len()
                    ==> crate::compound::bytes_compare(
                    rows@[i]@,
                    converted_rows(self.type_views(), other)->Ok_0[j],
                ) == row_order(
                    crate::batch::columns_view(columns@),
                    i,
                    other,
                    j,
                    columns@.len(),
                ),
    {
        rows_of(&self.data_types, DESCENDING, NULLS_FIRST, columns)
    }
}

/// A converter for keys of the given types.
pub fn create_compound_row_converter(data_types: &Vec<DataType>) -> (r: Result<
    CompoundRowConverter,
    Error,
>)
    ensures
        r matches Ok(c) && c.type_views() == crate::datatype::types(data_types@),
{
    match row_converter(data_types, DESCENDING, NULLS_FIRST) {
        Err(e) => Err(
            ErrorOf::Index {
                message: concat2("Failed to create compound RowConverter: ", e.as_str()),
            },
        ),
        Ok(_) => Ok(CompoundRowConverter { data_types: clone_types(data_types) }),
    }
}

/// Rows compare as their values do in the first column where they differ, with
/// null first, and are equal where no column differs.
pub proof fn rows_compare_by_first_difference(
    a: Seq<ColumnView>,
    i: int,
    b: Seq<ColumnView>,
    j: int,
    k: nat,
    c: int,
)
    requires
        0 <= c < k,
        forall|d: int|
            0 <= d < c ==> crate::scalar::opt_key_order(
                (#[trigger] a[d]).values[i].key,
                b[d].values[j].key,
            ) is Equal,
    ensures
        match crate::scalar::opt_key_order(a[c].values[i].key, b[c].values[j].key) {
            Order::Equal => c + 1 == k ==> row_order(a, i, b, j, k) is Equal,
            o => row_order(a, i, b, j, k) == o,
        },
        a[c].values[i].key is None && b[c].values[j].key is Some ==> row_order(a, i, b, j, k) is Less,
        a[c].values[i].key is Some && b[c].values[j].key is None ==> row_order(
            a,
            i,
            b,
            j,
            k,
        ) is Greater,
    decreases k,
{
    if c < k - 1 {
        rows_compare_by_first_difference(a, i, b, j, (k - 1) as nat, c);
    } else {
        equal_columns_make_equal_rows(a, i, b, j, c as nat);
    }
}

/// Rows without a difference are equal.
pub proof fn equal_columns_make_equal_rows(
    a: Seq<ColumnView>,
    i: int,
    b: Seq<ColumnView>,
    j: int,
    k: nat,
)
    requires
        forall|d: int|
            0 <= d < k ==> crate::scalar::opt_key_order(
                (#[trigger] a[d]).values[i].key,
                b[d].values[j].key,
            ) is Equal,
    ensures
        row_order(a, i, b, j, k) is Equal,
    decreases k,
{
    if k > 0 {
        equal_columns_make_equal_rows(a, i, b, j, (k - 1) as nat);
        assert(crate::scalar::opt_key_order(
            a[k - 1].values[i].key,
            b[k - 1].values[j].key,
        ) is Equal);
    }
}

/// When an array of a type takes a value: the value's type differs from it at
/// most in its parameters, and for decimals the precision and the scale are ones
/// that their width has, for byte strings of a fixed size the size is right.
pub proof fn arrays_take_their_values(t: DataTypeView, v: ScalarView)
    requires
        t is FixedSizeBinary ==> v.key is None || v.key->0 is Bytes,
    ensures
        fits_type(t, v) <==> crate::datatype::variant_of(v.data_type)
            == crate::datatype::variant_of(t) && (match t {
            DataTypeOf::Decimal32(p, s) => 0 < p < 10 && s <= p,
            DataTypeOf::Decimal64(p, s) => 0 < p < 19 && s <= p,
            DataTypeOf::Decimal128(p, s) => 0 < p < 39 && s <= p,
            DataTypeOf::Decimal256(p, s) => 0 < p < 77 && s <= p,
            DataTypeOf::FixedSizeBinary(n) => n >= 0 && (match v.key {
                Some(ScalarKey::Bytes(b)) => b.len() == n,
                _ => true,
            }),
            _ => true,
        }),
{
    let c = ColumnView { data_type: t, values: seq![v] };
    assert(c.values[0] == v);
}

} // verus!
