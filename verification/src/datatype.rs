//! Column types, fields and schemas.
use vstd::prelude::*;

use crate::text::same_text;

verus! {

#[derive(Debug, Clone, Copy, PartialEq, Eq, Structural)]
pub enum TimeUnit {
    Second,
    Millisecond,
    Microsecond,
    Nanosecond,
}

/// The type of a column. `S` is `String` in executable code and `Seq<char>`
/// in contracts; it holds the time zone of a timestamp.
#[derive(Debug)]
pub enum DataTypeOf<S> {
    Null,
    Boolean,
    Int8,
    Int16,
    Int32,
    Int64,
    UInt8,
    UInt16,
    UInt32,
    UInt64,
    Float16,
    Float32,
    Float64,
    Utf8,
    LargeUtf8,
    Utf8View,
    Binary,
    LargeBinary,
    BinaryView,
    Date32,
    Date64,
    Time32Second,
    Time32Millisecond,
    Time64Microsecond,
    Time64Nanosecond,
    /// Precision and scale.
    Decimal128(u8, i8),
    /// Precision and scale.
    Decimal32(u8, i8),
    /// Precision and scale.
    Decimal64(u8, i8),
    /// Precision and scale.
    Decimal256(u8, i8),
    /// Width in bytes.
    FixedSizeBinary(i32),
    /// Unit and time zone.
    Timestamp(TimeUnit, Option<S>),
    Duration(TimeUnit),
    IntervalYearMonth,
    IntervalDayTime,
    IntervalMonthDayNano,
}

pub type DataType = DataTypeOf<String>;

pub type DataTypeView = DataTypeOf<Seq<char>>;

pub open spec fn opt_text(s: Option<String>) -> Option<Seq<char>> {
    match s {
        Some(s) => Some(s@),
        None => None,
    }
}

impl View for DataTypeOf<String> {
    type V = DataTypeOf<Seq<char>>;

    open spec fn view(&self) -> DataTypeOf<Seq<char>> {
        match *self {
            DataTypeOf::Null => DataTypeOf::Null,
            DataTypeOf::Boolean => DataTypeOf::Boolean,
            DataTypeOf::Int8 => DataTypeOf::Int8,
            DataTypeOf::Int16 => DataTypeOf::Int16,
            DataTypeOf::Int32 => DataTypeOf::Int32,
            DataTypeOf::Int64 => DataTypeOf::Int64,
            DataTypeOf::UInt8 => DataTypeOf::UInt8,
            DataTypeOf::UInt16 => DataTypeOf::UInt16,
            DataTypeOf::UInt32 => DataTypeOf::UInt32,
            DataTypeOf::UInt64 => DataTypeOf::UInt64,
            DataTypeOf::Float16 => DataTypeOf::Float16,
            DataTypeOf::Float32 => DataTypeOf::Float32,
            DataTypeOf::Float64 => DataTypeOf::Float64,
            DataTypeOf::Utf8 => DataTypeOf::Utf8,
            DataTypeOf::LargeUtf8 => DataTypeOf::LargeUtf8,
            DataTypeOf::Utf8View => DataTypeOf::Utf8View,
            DataTypeOf::Binary => DataTypeOf::Binary,
            DataTypeOf::LargeBinary => DataTypeOf::LargeBinary,
            DataTypeOf::BinaryView => DataTypeOf::BinaryView,
            DataTypeOf::Date32 => DataTypeOf::Date32,
            DataTypeOf::Date64 => DataTypeOf::Date64,
            DataTypeOf::Time32Second => DataTypeOf::Time32Second,
            DataTypeOf::Time32Millisecond => DataTypeOf::Time32Millisecond,
            DataTypeOf::Time64Microsecond => DataTypeOf::Time64Microsecond,
            DataTypeOf::Time64Nanosecond => DataTypeOf::Time64Nanosecond,
            DataTypeOf::Decimal128(p, s) => DataTypeOf::Decimal128(p, s),
            DataTypeOf::Decimal32(p, s) => DataTypeOf::Decimal32(p, s),
            DataTypeOf::Decimal64(p, s) => DataTypeOf::Decimal64(p, s),
            DataTypeOf::Decimal256(p, s) => DataTypeOf::Decimal256(p, s),
            DataTypeOf::FixedSizeBinary(n) => DataTypeOf::FixedSizeBinary(n),
            DataTypeOf::Timestamp(u, tz) => DataTypeOf::Timestamp(u, opt_text(tz)),
            DataTypeOf::Duration(u) => DataTypeOf::Duration(u),
            DataTypeOf::IntervalYearMonth => DataTypeOf::IntervalYearMonth,
            DataTypeOf::IntervalDayTime => DataTypeOf::IntervalDayTime,
            DataTypeOf::IntervalMonthDayNano => DataTypeOf::IntervalMonthDayNano,
        }
    }
}

/// A copy of an optional string.
pub fn clone_opt_text(s: &Option<String>) -> (r: Option<String>)
    ensures
        opt_text(r) == opt_text(*s),
{
    match s {
        Some(s) => Some(s.clone()),
        None => None,
    }
}

fn same_opt_text(a: &Option<String>, b: &Option<String>) -> (r: bool)
    ensures
        r == (opt_text(*a) == opt_text(*b)),
{
    match (a, b) {
        (Some(a), Some(b)) => same_text(a.as_str(), b.as_str()),
        (None, None) => true,
        _ => false,
    }
}

impl Clone for DataTypeOf<String> {
    fn clone(&self) -> (r: Self)
        ensures
            r@ == self@,
    {
        match self {
            DataTypeOf::Null => DataTypeOf::Null,
            DataTypeOf::Boolean => DataTypeOf::Boolean,
            DataTypeOf::Int8 => DataTypeOf::Int8,
            DataTypeOf::Int16 => DataTypeOf::Int16,
            DataTypeOf::Int32 => DataTypeOf::Int32,
            DataTypeOf::Int64 => DataTypeOf::Int64,
            DataTypeOf::UInt8 => DataTypeOf::UInt8,
            DataTypeOf::UInt16 => DataTypeOf::UInt16,
            DataTypeOf::UInt32 => DataTypeOf::UInt32,
            DataTypeOf::UInt64 => DataTypeOf::UInt64,
            DataTypeOf::Float16 => DataTypeOf::Float16,
            DataTypeOf::Float32 => DataTypeOf::Float32,
            DataTypeOf::Float64 => DataTypeOf::Float64,
            DataTypeOf::Utf8 => DataTypeOf::Utf8,
            DataTypeOf::LargeUtf8 => DataTypeOf::LargeUtf8,
            DataTypeOf::Utf8View => DataTypeOf::Utf8View,
            DataTypeOf::Binary => DataTypeOf::Binary,
            DataTypeOf::LargeBinary => DataTypeOf::LargeBinary,
            DataTypeOf::BinaryView => DataTypeOf::BinaryView,
            DataTypeOf::Date32 => DataTypeOf::Date32,
            DataTypeOf::Date64 => DataTypeOf::Date64,
            DataTypeOf::Time32Second => DataTypeOf::Time32Second,
            DataTypeOf::Time32Millisecond => DataTypeOf::Time32Millisecond,
            DataTypeOf::Time64Microsecond => DataTypeOf::Time64Microsecond,
            DataTypeOf::Time64Nanosecond => DataTypeOf::Time64Nanosecond,
            DataTypeOf::Decimal128(p, s) => DataTypeOf::Decimal128(*p, *s),
            DataTypeOf::Decimal32(p, s) => DataTypeOf::Decimal32(*p, *s),
            DataTypeOf::Decimal64(p, s) => DataTypeOf::Decimal64(*p, *s),
            DataTypeOf::Decimal256(p, s) => DataTypeOf::Decimal256(*p, *s),
            DataTypeOf::FixedSizeBinary(n) => DataTypeOf::FixedSizeBinary(*n),
            DataTypeOf::Timestamp(u, tz) => DataTypeOf::Timestamp(*u, clone_opt_text(tz)),
            DataTypeOf::Duration(u) => DataTypeOf::Duration(*u),
            DataTypeOf::IntervalYearMonth => DataTypeOf::IntervalYearMonth,
            DataTypeOf::IntervalDayTime => DataTypeOf::IntervalDayTime,
            DataTypeOf::IntervalMonthDayNano => DataTypeOf::IntervalMonthDayNano,
        }
    }
}

/// Whether two types are the same.
pub fn same_type(a: &DataType, b: &DataType) -> (r: bool)
    ensures
        r == (a@ == b@),
{
    match (a, b) {
        (DataTypeOf::Null, DataTypeOf::Null) => true,
        (DataTypeOf::Boolean, DataTypeOf::Boolean) => true,
        (DataTypeOf::Int8, DataTypeOf::Int8) => true,
        (DataTypeOf::Int16, DataTypeOf::Int16) => true,
        (DataTypeOf::Int32, DataTypeOf::Int32) => true,
        (DataTypeOf::Int64, DataTypeOf::Int64) => true,
        (DataTypeOf::UInt8, DataTypeOf::UInt8) => true,
        (DataTypeOf::UInt16, DataTypeOf::UInt16) => true,
        (DataTypeOf::UInt32, DataTypeOf::UInt32) => true,
        (DataTypeOf::UInt64, DataTypeOf::UInt64) => true,
        (DataTypeOf::Float16, DataTypeOf::Float16) => true,
        (DataTypeOf::Float32, DataTypeOf::Float32) => true,
        (DataTypeOf::Float64, DataTypeOf::Float64) => true,
        (DataTypeOf::Utf8, DataTypeOf::Utf8) => true,
        (DataTypeOf::LargeUtf8, DataTypeOf::LargeUtf8) => true,
        (DataTypeOf::Utf8View, DataTypeOf::Utf8View) => true,
        (DataTypeOf::Binary, DataTypeOf::Binary) => true,
        (DataTypeOf::LargeBinary, DataTypeOf::LargeBinary) => true,
        (DataTypeOf::BinaryView, DataTypeOf::BinaryView) => true,
        (DataTypeOf::Date32, DataTypeOf::Date32) => true,
        (DataTypeOf::Date64, DataTypeOf::Date64) => true,
        (DataTypeOf::Time32Second, DataTypeOf::Time32Second) => true,
        (DataTypeOf::Time32Millisecond, DataTypeOf::Time32Millisecond) => true,
        (DataTypeOf::Time64Microsecond, DataTypeOf::Time64Microsecond) => true,
        (DataTypeOf::Time64Nanosecond, DataTypeOf::Time64Nanosecond) => true,
        (DataTypeOf::Decimal128(p, s), DataTypeOf::Decimal128(q, t)) => *p == *q && *s == *t,
        (DataTypeOf::Decimal32(p, s), DataTypeOf::Decimal32(q, t)) => *p == *q && *s == *t,
        (DataTypeOf::Decimal64(p, s), DataTypeOf::Decimal64(q, t)) => *p == *q && *s == *t,
        (DataTypeOf::Decimal256(p, s), DataTypeOf::Decimal256(q, t)) => *p == *q && *s == *t,
        (DataTypeOf::FixedSizeBinary(n), DataTypeOf::FixedSizeBinary(m)) => *n == *m,
        (DataTypeOf::Timestamp(u, x), DataTypeOf::Timestamp(v, y)) => *u == *v
            && same_opt_text(x, y),
        (DataTypeOf::Duration(u), DataTypeOf::Duration(v)) => *u == *v,
        (DataTypeOf::IntervalYearMonth, DataTypeOf::IntervalYearMonth) => true,
        (DataTypeOf::IntervalDayTime, DataTypeOf::IntervalDayTime) => true,
        (DataTypeOf::IntervalMonthDayNano, DataTypeOf::IntervalMonthDayNano) => true,
        _ => false,
    }
}

impl PartialEq for DataTypeOf<String> {
    fn eq(&self, other: &DataTypeOf<String>) -> (r: bool) {
        same_type(self, other)
    }
}

impl vstd::std_specs::cmp::PartialEqSpecImpl for DataTypeOf<String> {
    open spec fn obeys_eq_spec() -> bool {
        true
    }

    open spec fn eq_spec(&self, other: &DataTypeOf<String>) -> bool {
        self@ == other@
    }
}

/// The type without what does not take part in comparisons of values: the
/// time zone of a timestamp and the width of a fixed-size binary.
pub open spec fn kind_of(t: DataTypeView) -> DataTypeView {
    match t {
        DataTypeOf::Timestamp(u, _) => DataTypeOf::Timestamp(u, None),
        DataTypeOf::FixedSizeBinary(_) => DataTypeOf::FixedSizeBinary(0),
        _ => t,
    }
}

/// Whether values of the two types can be compared.
pub fn same_kind(a: &DataType, b: &DataType) -> (r: bool)
    ensures
        r == (kind_of(a@) == kind_of(b@)),
{
    match (a, b) {
        (DataTypeOf::Timestamp(u, _), DataTypeOf::Timestamp(v, _)) => *u == *v,
        (DataTypeOf::FixedSizeBinary(_), DataTypeOf::FixedSizeBinary(_)) => true,
        _ => same_type(a, b),
    }
}

/// The type without its parameters other than units: the time zone of a
/// timestamp, the width of a fixed-size binary, the precision and the scale of
/// a decimal.
pub open spec fn variant_of(t: DataTypeView) -> DataTypeView {
    match t {
        DataTypeOf::Decimal128(_, _) => DataTypeOf::Decimal128(0, 0),
        DataTypeOf::Decimal32(_, _) => DataTypeOf::Decimal32(0, 0),
        DataTypeOf::Decimal64(_, _) => DataTypeOf::Decimal64(0, 0),
        DataTypeOf::Decimal256(_, _) => DataTypeOf::Decimal256(0, 0),
        _ => kind_of(t),
    }
}

/// Whether the two types differ at most in their parameters.
pub fn same_variant(a: &DataType, b: &DataType) -> (r: bool)
    ensures
        r == (variant_of(a@) == variant_of(b@)),
{
    match (a, b) {
        (DataTypeOf::Decimal128(_, _), DataTypeOf::Decimal128(_, _)) => true,
        (DataTypeOf::Decimal32(_, _), DataTypeOf::Decimal32(_, _)) => true,
        (DataTypeOf::Decimal64(_, _), DataTypeOf::Decimal64(_, _)) => true,
        (DataTypeOf::Decimal256(_, _), DataTypeOf::Decimal256(_, _)) => true,
        _ => same_kind(a, b),
    }
}

/// The views of a vector of types.
pub open spec fn types(v: Seq<DataType>) -> Seq<DataTypeView> {
    Seq::new(v.len(), |i: int| v[i]@)
}

/// A copy of a vector of types.
pub fn clone_types(v: &Vec<DataType>) -> (r: Vec<DataType>)
    ensures
        types(r@) == types(v@),
{
    let mut out: Vec<DataType> = Vec::new();
    for i in 0..v.len()
        invariant
            out@.len() == i,
            forall|j: int| 0 <= j < i ==> (#[trigger] out@[j])@ == v@[j]@,
    {
        out.push(v[i].clone());
    }
    assert(types(out@) =~= types(v@));
    out
}

/// A named, typed column of a schema.
#[derive(Debug)]
pub struct Field {
    pub name: String,
    pub data_type: DataType,
    pub nullable: bool,
}

#[verifier::ext_equal]
pub struct FieldView {
    pub name: Seq<char>,
    pub data_type: DataTypeView,
    pub nullable: bool,
}

impl View for Field {
    type V = FieldView;

    open spec fn view(&self) -> FieldView {
        FieldView { name: self.name@, data_type: self.data_type@, nullable: self.nullable }
    }
}

impl Clone for Field {
    fn clone(&self) -> (r: Self)
        ensures
            r@ == self@,
    {
        Field {
            name: self.name.clone(),
            data_type: self.data_type.clone(),
            nullable: self.nullable,
        }
    }
}

impl Field {
    pub fn new(name: &str, data_type: DataType, nullable: bool) -> (r: Field)
        ensures
            r@ == (FieldView { name: name@, data_type: data_type@, nullable }),
    {
        Field { name: name.to_owned(), data_type, nullable }
    }
}

/// The map that a list of key-value pairs stands for: a later pair wins.
pub open spec fn metadata_map(entries: Seq<(String, String)>) -> Map<Seq<char>, Seq<char>>
    decreases entries.len(),
{
    if entries.len() == 0 {
        Map::empty()
    } else {
        metadata_map(entries.drop_last()).insert(entries.last().0@, entries.last().1@)
    }
}

/// The fields of a batch, with file-level metadata.
#[derive(Debug)]
pub struct Schema {
    pub fields: Vec<Field>,
    pub metadata: Vec<(String, String)>,
}

#[verifier::ext_equal]
pub struct SchemaView {
    pub fields: Seq<FieldView>,
    pub metadata: Map<Seq<char>, Seq<char>>,
}

/// The views of a vector of fields.
pub open spec fn fields_view(v: Seq<Field>) -> Seq<FieldView> {
    Seq::new(v.len(), |i: int| v[i]@)
}

impl View for Schema {
    type V = SchemaView;

    open spec fn view(&self) -> SchemaView {
        SchemaView { fields: fields_view(self.fields@), metadata: metadata_map(self.metadata@) }
    }
}

fn clone_entries(v: &Vec<(String, String)>) -> (r: Vec<(String, String)>)
    ensures
        metadata_map(r@) == metadata_map(v@),
{
    let mut out: Vec<(String, String)> = Vec::new();
    for i in 0..v.len()
        invariant
            metadata_map(out@) == metadata_map(v@.take(i as int)),
    {
        let ghost before = out@;
        out.push((v[i].0.clone(), v[i].1.clone()));
        assert(out@.drop_last() =~= before);
        assert(v@.take(i + 1).drop_last() =~= v@.take(i as int));
    }
    assert(v@.take(v@.len() as int) =~= v@);
    out
}

impl Clone for Schema {
    fn clone(&self) -> (r: Self)
        ensures
            r@ == self@,
    {
        let mut fields: Vec<Field> = Vec::new();
        for i in 0..self.fields.len()
            invariant
                fields@.len() == i,
                forall|j: int| 0 <= j < i ==> (#[trigger] fields@[j])@ == self.fields@[j]@,
        {
            fields.push(self.fields[i].clone());
        }
        assert(fields_view(fields@) =~= fields_view(self.fields@));
        Schema { fields, metadata: clone_entries(&self.metadata) }
    }
}

impl Schema {
    pub fn new(fields: Vec<Field>) -> (r: Schema)
        ensures
            r@.fields == fields_view(fields@),
            r@.metadata == Map::<Seq<char>, Seq<char>>::empty(),
    {
        Schema { fields, metadata: Vec::new() }
    }

    /// Set a metadata entry.
    pub fn insert_metadata(&mut self, key: String, value: String)
        ensures
            final(self)@.fields == old(self)@.fields,
            final(self)@.metadata == old(self)@.metadata.insert(key@, value@),
    {
        let ghost before = self.metadata@;
        self.metadata.push((key, value));
        assert(self.metadata@.drop_last() =~= before);
    }

    /// The metadata entry stored under a key.
    pub fn metadata_value(&self, key: &str) -> (r: Option<&String>)
        ensures
            match r {
                Some(v) => self@.metadata.contains_key(key@) && self@.metadata[key@] == v@,
                None => !self@.metadata.contains_key(key@),
            },
    {
        let n = self.metadata.len();
        assert(self.metadata@.take(n as int) =~= self.metadata@);
        for k in 0..n
            invariant
                n == self.metadata@.len(),
                metadata_map(self.metadata@.take(n - k)).contains_key(key@)
                    == metadata_map(self.metadata@).contains_key(key@),
                metadata_map(self.metadata@).contains_key(key@) ==> metadata_map(
                    self.metadata@.take(n - k),
                )[key@] == metadata_map(self.metadata@)[key@],
        {
            let ghost part = self.metadata@.take(n - k);
            assert(part.drop_last() =~= self.metadata@.take(n - k - 1));
            if same_text(self.metadata[n - 1 - k].0.as_str(), key) {
                return Some(&self.metadata[n - 1 - k].1);
            }
        }
        None
    }
}

/// A text in a contract is there exactly where the text itself is, and is the
/// same.
pub proof fn text_shows_itself(s: Option<String>)
    ensures
        match (s, opt_text(s)) {
            (Some(a), Some(b)) => a@ == b,
            (None, None) => true,
            _ => false,
        },
{
}

/// Types that a contract takes for one are one, up to how the name of a time
/// zone is held.
pub proof fn types_are_told_apart(a: DataType, b: DataType)
    ensures
        a@ == b@ <==> match (a, b) {
            (DataTypeOf::Timestamp(u, x), DataTypeOf::Timestamp(v, y)) => u == v && match (x, y) {
                (Some(s), Some(t)) => s@ == t@,
                (None, None) => true,
                _ => false,
            },
            (DataTypeOf::Timestamp(_, _), _) => false,
            (_, DataTypeOf::Timestamp(_, _)) => false,
            _ => a == b,
        },
{
}

/// Values of two types can be compared exactly where the types are the same, are
/// timestamps of the same unit, or are binaries of fixed sizes.
pub proof fn comparable_types(a: DataTypeView, b: DataTypeView)
    ensures
        kind_of(a) == kind_of(b) <==> match (a, b) {
            (DataTypeOf::Timestamp(u, _), DataTypeOf::Timestamp(v, _)) => u == v,
            (DataTypeOf::FixedSizeBinary(_), DataTypeOf::FixedSizeBinary(_)) => true,
            _ => a == b,
        },
{
}

/// Types differ at most in their parameters exactly where their values can be
/// compared or they are decimals of the same width.
pub proof fn types_of_one_variant(a: DataTypeView, b: DataTypeView)
    ensures
        variant_of(a) == variant_of(b) <==> match (a, b) {
            (DataTypeOf::Timestamp(u, _), DataTypeOf::Timestamp(v, _)) => u == v,
            (DataTypeOf::FixedSizeBinary(_), DataTypeOf::FixedSizeBinary(_)) => true,
            (DataTypeOf::Decimal32(_, _), DataTypeOf::Decimal32(_, _)) => true,
            (DataTypeOf::Decimal64(_, _), DataTypeOf::Decimal64(_, _)) => true,
            (DataTypeOf::Decimal128(_, _), DataTypeOf::Decimal128(_, _)) => true,
            (DataTypeOf::Decimal256(_, _), DataTypeOf::Decimal256(_, _)) => true,
            _ => a == b,
        },
{
}

/// A field and a schema in a contract have the names, types and nullability of
/// the fields themselves, in order.
pub proof fn schema_shows_its_fields(s: Schema, i: int)
    requires
        0 <= i < s.fields@.len(),
    ensures
        s@.fields.len() == s.fields@.len(),
        s@.fields[i].name == s.fields@[i].name@,
        s@.fields[i].data_type == s.fields@[i].data_type@,
        s@.fields[i].nullable == s.fields@[i].nullable,
{
}

/// The metadata of a list of pairs is what its last pair with a key says of it.
pub proof fn last_entry_counts(entries: Seq<(String, String)>, i: int)
    requires
        0 <= i < entries.len(),
        forall|j: int| i < j < entries.len() ==> (#[trigger] entries[j]).0@ != entries[i].0@,
    ensures
        metadata_map(entries).contains_pair(entries[i].0@, entries[i].1@),
    decreases entries.len(),
{
    if i < entries.len() - 1 {
        let before = entries.drop_last();
        assert(before[i] == entries[i]);
        assert(entries[entries.len() - 1].0@ != entries[i].0@);
        assert forall|j: int| i < j < before.len() implies (#[trigger] before[j]).0@
            != before[i].0@ by {
            assert(entries[j].0@ != entries[i].0@);
        }
        last_entry_counts(before, i);
    }
}

/// Metadata has no key that no pair has.
pub proof fn metadata_keys_are_given(entries: Seq<(String, String)>, key: Seq<char>)
    ensures
        metadata_map(entries).contains_key(key) <==> exists|i: int|
            0 <= i < entries.len() && (#[trigger] entries[i]).0@ == key,
    decreases entries.len(),
{
    if entries.len() > 0 {
        let before = entries.drop_last();
        metadata_keys_are_given(before, key);
        if metadata_map(entries).contains_key(key) {
            if entries.last().0@ == key {
                assert(entries[entries.len() - 1].0@ == key);
            } else {
                let i = choose|i: int| 0 <= i < before.len() && (#[trigger] before[i]).0@ == key;
                assert(entries[i].0@ == key);
            }
        }
        if exists|i: int| 0 <= i < entries.len() && (#[trigger] entries[i]).0@ == key {
            let i = choose|i: int| 0 <= i < entries.len() && (#[trigger] entries[i]).0@ == key;
            if i < before.len() {
                assert(before[i].0@ == key);
            }
        }
    }
}

/// Types in a contract are the types themselves, in order.
pub proof fn types_show_themselves(v: Seq<DataType>, i: int)
    ensures
        types(v).len() == v.len(),
        0 <= i < v.len() ==> types(v)[i] == v[i]@,
{
}

} // verus!
