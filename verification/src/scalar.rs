//! Single values of a column and how they compare.
use vstd::prelude::*;
use vstd::string::StrSliceExecFns;

use crate::datatype::{
    clone_opt_text, same_kind, DataType, DataTypeOf, DataTypeView, TimeUnit,
};

verus! {

/// The outcome of a comparison.
#[derive(Debug, Clone, Copy, PartialEq, Eq, Structural)]
pub enum Order {
    Less,
    Equal,
    Greater,
}

/// An integer of 256 bits: `high * 2^128 + low`.
#[derive(Debug, Clone, Copy, PartialEq, Eq, Structural)]
pub struct WideInt {
    pub high: i128,
    pub low: u128,
}

/// Days and milliseconds.
#[derive(Debug, Clone, Copy, PartialEq, Eq, Structural)]
pub struct DayTime {
    pub days: i32,
    pub milliseconds: i32,
}

/// Months, days and nanoseconds.
#[derive(Debug, Clone, Copy, PartialEq, Eq, Structural)]
pub struct MonthDayNano {
    pub months: i32,
    pub days: i32,
    pub nanoseconds: i64,
}

/// One value of a column, or a typed null. Floating-point values are held as
/// their IEEE 754 bits.
#[derive(Debug)]
pub enum ScalarValue {
    Null,
    Boolean(Option<bool>),
    Int8(Option<i8>),
    Int16(Option<i16>),
    Int32(Option<i32>),
    Int64(Option<i64>),
    UInt8(Option<u8>),
    UInt16(Option<u16>),
    UInt32(Option<u32>),
    UInt64(Option<u64>),
    Date32(Option<i32>),
    Date64(Option<i64>),
    Time32Second(Option<i32>),
    Time32Millisecond(Option<i32>),
    Time64Microsecond(Option<i64>),
    Time64Nanosecond(Option<i64>),
    Float16(Option<u16>),
    Float32(Option<u32>),
    Float64(Option<u64>),
    Decimal128(Option<i128>, u8, i8),
    Decimal32(Option<i32>, u8, i8),
    Decimal64(Option<i64>, u8, i8),
    Decimal256(Option<WideInt>, u8, i8),
    Utf8(Option<String>),
    LargeUtf8(Option<String>),
    Utf8View(Option<String>),
    Binary(Option<Vec<u8>>),
    LargeBinary(Option<Vec<u8>>),
    BinaryView(Option<Vec<u8>>),
    FixedSizeBinary(i32, Option<Vec<u8>>),
    TimestampSecond(Option<i64>, Option<String>),
    TimestampMillisecond(Option<i64>, Option<String>),
    TimestampMicrosecond(Option<i64>, Option<String>),
    TimestampNanosecond(Option<i64>, Option<String>),
    DurationSecond(Option<i64>),
    DurationMillisecond(Option<i64>),
    DurationMicrosecond(Option<i64>),
    DurationNanosecond(Option<i64>),
    IntervalYearMonth(Option<i32>),
    IntervalDayTime(Option<DayTime>),
    IntervalMonthDayNano(Option<MonthDayNano>),
}

/// What a non-null value is compared by.
pub enum ScalarKey {
    Int(int),
    Text(Seq<char>),
    Bytes(Seq<u8>),
}

/// A value as its type and, unless it is null, its key.
#[verifier::ext_equal]
pub struct ScalarView {
    pub data_type: DataTypeView,
    pub key: Option<ScalarKey>,
}

impl ScalarView {
    pub open spec fn is_null(self) -> bool {
        self.key is None
    }
}

/// The integer that a wide one stands for.
pub open spec fn wide_value(w: WideInt) -> int {
    w.high * 0x1_0000_0000_0000_0000_0000_0000_0000_0000int + w.low
}

/// The place of an interval in the order by days, then milliseconds.
pub open spec fn day_time_rank(v: DayTime) -> int {
    v.days * 0x1_0000_0000 + v.milliseconds
}

/// The place of an interval in the order by months, then days, then
/// nanoseconds.
pub open spec fn month_day_nano_rank(v: MonthDayNano) -> int {
    v.months * 0x1_0000_0000_0000_0000_0000_0000 + (v.days + 0x8000_0000)
        * 0x1_0000_0000_0000_0000 + (v.nanoseconds + 0x8000_0000_0000_0000)
}

/// The place of a 16-bit float in the total order of IEEE 754, as for 32 bits.
pub open spec fn float_rank16(bits: u16) -> int {
    if bits < 0x8000 {
        bits as int
    } else {
        0x8000 - bits - 1
    }
}

/// The place of a 32-bit float in the total order of IEEE 754: by magnitude,
/// negative values reversed and below the positive ones.
pub open spec fn float_rank32(bits: u32) -> int {
    if bits < 0x8000_0000 {
        bits as int
    } else {
        0x8000_0000 - bits - 1
    }
}

/// As `float_rank32`, for 64-bit floats.
pub open spec fn float_rank64(bits: u64) -> int {
    if bits < 0x8000_0000_0000_0000 {
        bits as int
    } else {
        0x8000_0000_0000_0000 - bits - 1
    }
}

fn rank16(bits: u16) -> (r: i128)
    ensures
        r == float_rank16(bits),
{
    if bits < 0x8000 {
        bits as i128
    } else {
        0x8000i128 - bits as i128 - 1
    }
}

fn rank32(bits: u32) -> (r: i128)
    ensures
        r == float_rank32(bits),
{
    if bits < 0x8000_0000 {
        bits as i128
    } else {
        0x8000_0000i128 - bits as i128 - 1
    }
}

fn rank64(bits: u64) -> (r: i128)
    ensures
        r == float_rank64(bits),
{
    if bits < 0x8000_0000_0000_0000 {
        bits as i128
    } else {
        0x8000_0000_0000_0000i128 - bits as i128 - 1
    }
}

impl View for ScalarValue {
    type V = ScalarView;

    open spec fn view(&self) -> ScalarView {
        match *self {
            ScalarValue::Null => ScalarView { data_type: DataTypeOf::Null, key: None },
            ScalarValue::Boolean(v) => ScalarView {
                data_type: DataTypeOf::Boolean,
                key: match v {
                    Some(x) => Some(ScalarKey::Int(if x { 1int } else { 0int })),
                    None => None,
                },
            },
            ScalarValue::Int8(v) => ScalarView {
                data_type: DataTypeOf::Int8,
                key: match v {
                    Some(x) => Some(ScalarKey::Int(x as int)),
                    None => None,
                },
            },
            ScalarValue::Int16(v) => ScalarView {
                data_type: DataTypeOf::Int16,
                key: match v {
                    Some(x) => Some(ScalarKey::Int(x as int)),
                    None => None,
                },
            },
            ScalarValue::Int32(v) => ScalarView {
                data_type: DataTypeOf::Int32,
                key: match v {
                    Some(x) => Some(ScalarKey::Int(x as int)),
                    None => None,
                },
            },
            ScalarValue::Int64(v) => ScalarView {
                data_type: DataTypeOf::Int64,
                key: match v {
                    Some(x) => Some(ScalarKey::Int(x as int)),
                    None => None,
                },
            },
            ScalarValue::UInt8(v) => ScalarView {
                data_type: DataTypeOf::UInt8,
                key: match v {
                    Some(x) => Some(ScalarKey::Int(x as int)),
                    None => None,
                },
            },
            ScalarValue::UInt16(v) => ScalarView {
                data_type: DataTypeOf::UInt16,
                key: match v {
                    Some(x) => Some(ScalarKey::Int(x as int)),
                    None => None,
                },
            },
            ScalarValue::UInt32(v) => ScalarView {
                data_type: DataTypeOf::UInt32,
                key: match v {
                    Some(x) => Some(ScalarKey::Int(x as int)),
                    None => None,
                },
            },
            ScalarValue::UInt64(v) => ScalarView {
                data_type: DataTypeOf::UInt64,
                key: match v {
                    Some(x) => Some(ScalarKey::Int(x as int)),
                    None => None,
                },
            },
            ScalarValue::Date32(v) => ScalarView {
                data_type: DataTypeOf::Date32,
                key: match v {
                    Some(x) => Some(ScalarKey::Int(x as int)),
                    None => None,
                },
            },
            ScalarValue::Date64(v) => ScalarView {
                data_type: DataTypeOf::Date64,
                key: match v {
                    Some(x) => Some(ScalarKey::Int(x as int)),
                    None => None,
                },
            },
            ScalarValue::Time32Second(v) => ScalarView {
                data_type: DataTypeOf::Time32Second,
                key: match v {
                    Some(x) => Some(ScalarKey::Int(x as int)),
                    None => None,
                },
            },
            ScalarValue::Time32Millisecond(v) => ScalarView {
                data_type: DataTypeOf::Time32Millisecond,
                key: match v {
                    Some(x) => Some(ScalarKey::Int(x as int)),
                    None => None,
                },
            },
            ScalarValue::Time64Microsecond(v) => ScalarView {
                data_type: DataTypeOf::Time64Microsecond,
                key: match v {
                    Some(x) => Some(ScalarKey::Int(x as int)),
                    None => None,
                },
            },
            ScalarValue::Time64Nanosecond(v) => ScalarView {
                data_type: DataTypeOf::Time64Nanosecond,
                key: match v {
                    Some(x) => Some(ScalarKey::Int(x as int)),
                    None => None,
                },
            },
            ScalarValue::Float32(v) => ScalarView {
                data_type: DataTypeOf::Float32,
                key: match v {
                    Some(x) => Some(ScalarKey::Int(float_rank32(x))),
                    None => None,
                },
            },
            ScalarValue::Float64(v) => ScalarView {
                data_type: DataTypeOf::Float64,
                key: match v {
                    Some(x) => Some(ScalarKey::Int(float_rank64(x))),
                    None => None,
                },
            },
            ScalarValue::Float16(v) => ScalarView {
                data_type: DataTypeOf::Float16,
                key: match v {
                    Some(x) => Some(ScalarKey::Int(float_rank16(x))),
                    None => None,
                },
            },
            ScalarValue::Decimal32(v, p, s) => ScalarView {
                data_type: DataTypeOf::Decimal32(p, s),
                key: match v {
                    Some(x) => Some(ScalarKey::Int(x as int)),
                    None => None,
                },
            },
            ScalarValue::Decimal64(v, p, s) => ScalarView {
                data_type: DataTypeOf::Decimal64(p, s),
                key: match v {
                    Some(x) => Some(ScalarKey::Int(x as int)),
                    None => None,
                },
            },
            ScalarValue::Decimal256(v, p, s) => ScalarView {
                data_type: DataTypeOf::Decimal256(p, s),
                key: match v {
                    Some(x) => Some(ScalarKey::Int(wide_value(x))),
                    None => None,
                },
            },
            ScalarValue::IntervalYearMonth(v) => ScalarView {
                data_type: DataTypeOf::IntervalYearMonth,
                key: match v {
                    Some(x) => Some(ScalarKey::Int(x as int)),
                    None => None,
                },
            },
            ScalarValue::IntervalDayTime(v) => ScalarView {
                data_type: DataTypeOf::IntervalDayTime,
                key: match v {
                    Some(x) => Some(ScalarKey::Int(day_time_rank(x))),
                    None => None,
                },
            },
            ScalarValue::IntervalMonthDayNano(v) => ScalarView {
                data_type: DataTypeOf::IntervalMonthDayNano,
                key: match v {
                    Some(x) => Some(ScalarKey::Int(month_day_nano_rank(x))),
                    None => None,
                },
            },
            ScalarValue::Decimal128(v, p, s) => ScalarView {
                data_type: DataTypeOf::Decimal128(p, s),
                key: match v {
                    Some(x) => Some(ScalarKey::Int(x as int)),
                    None => None,
                },
            },
            ScalarValue::Utf8(v) => ScalarView {
                data_type: DataTypeOf::Utf8,
                key: match v {
                    Some(x) => Some(ScalarKey::Text(x@)),
                    None => None,
                },
            },
            ScalarValue::LargeUtf8(v) => ScalarView {
                data_type: DataTypeOf::LargeUtf8,
                key: match v {
                    Some(x) => Some(ScalarKey::Text(x@)),
                    None => None,
                },
            },
            ScalarValue::Utf8View(v) => ScalarView {
                data_type: DataTypeOf::Utf8View,
                key: match v {
                    Some(x) => Some(ScalarKey::Text(x@)),
                    None => None,
                },
            },
            ScalarValue::Binary(v) => ScalarView {
                data_type: DataTypeOf::Binary,
                key: match v {
                    Some(x) => Some(ScalarKey::Bytes(x@)),
                    None => None,
                },
            },
            ScalarValue::LargeBinary(v) => ScalarView {
                data_type: DataTypeOf::LargeBinary,
                key: match v {
                    Some(x) => Some(ScalarKey::Bytes(x@)),
                    None => None,
                },
            },
            ScalarValue::BinaryView(v) => ScalarView {
                data_type: DataTypeOf::BinaryView,
                key: match v {
                    Some(x) => Some(ScalarKey::Bytes(x@)),
                    None => None,
                },
            },
            ScalarValue::FixedSizeBinary(n, v) => ScalarView {
                data_type: DataTypeOf::FixedSizeBinary(n),
                key: match v {
                    Some(x) => Some(ScalarKey::Bytes(x@)),
                    None => None,
                },
            },
            ScalarValue::TimestampSecond(v, tz) => ScalarView {
                data_type: DataTypeOf::Timestamp(TimeUnit::Second, crate::datatype::opt_text(tz)),
                key: match v {
                    Some(x) => Some(ScalarKey::Int(x as int)),
                    None => None,
                },
            },
            ScalarValue::TimestampMillisecond(v, tz) => ScalarView {
                data_type: DataTypeOf::Timestamp(TimeUnit::Millisecond, crate::datatype::opt_text(tz)),
                key: match v {
                    Some(x) => Some(ScalarKey::Int(x as int)),
                    None => None,
                },
            },
            ScalarValue::TimestampMicrosecond(v, tz) => ScalarView {
                data_type: DataTypeOf::Timestamp(TimeUnit::Microsecond, crate::datatype::opt_text(tz)),
                key: match v {
                    Some(x) => Some(ScalarKey::Int(x as int)),
                    None => None,
                },
            },
            ScalarValue::TimestampNanosecond(v, tz) => ScalarView {
                data_type: DataTypeOf::Timestamp(TimeUnit::Nanosecond, crate::datatype::opt_text(tz)),
                key: match v {
                    Some(x) => Some(ScalarKey::Int(x as int)),
                    None => None,
                },
            },
            ScalarValue::DurationSecond(v) => ScalarView {
                data_type: DataTypeOf::Duration(TimeUnit::Second),
                key: match v {
                    Some(x) => Some(ScalarKey::Int(x as int)),
                    None => None,
                },
            },
            ScalarValue::DurationMillisecond(v) => ScalarView {
                data_type: DataTypeOf::Duration(TimeUnit::Millisecond),
                key: match v {
                    Some(x) => Some(ScalarKey::Int(x as int)),
                    None => None,
                },
            },
            ScalarValue::DurationMicrosecond(v) => ScalarView {
                data_type: DataTypeOf::Duration(TimeUnit::Microsecond),
                key: match v {
                    Some(x) => Some(ScalarKey::Int(x as int)),
                    None => None,
                },
            },
            ScalarValue::DurationNanosecond(v) => ScalarView {
                data_type: DataTypeOf::Duration(TimeUnit::Nanosecond),
                key: match v {
                    Some(x) => Some(ScalarKey::Int(x as int)),
                    None => None,
                },
            },
        }
    }
}

/// A borrowed key.
enum KeyRef<'a> {
    Null,
    Int(i128),
    Wide(WideInt),
    Text(&'a String),
    Bytes(&'a Vec<u8>),
}

impl<'a> KeyRef<'a> {
    spec fn key(self) -> Option<ScalarKey> {
        match self {
            KeyRef::Null => None,
            KeyRef::Int(i) => Some(ScalarKey::Int(i as int)),
            KeyRef::Wide(w) => Some(ScalarKey::Int(wide_value(w))),
            KeyRef::Text(s) => Some(ScalarKey::Text(s@)),
            KeyRef::Bytes(b) => Some(ScalarKey::Bytes(b@)),
        }
    }
}

fn clone_opt_bytes(b: &Option<Vec<u8>>) -> (r: Option<Vec<u8>>)
    ensures
        match (*b, r) {
            (Some(x), Some(y)) => x@ == y@,
            (None, None) => true,
            _ => false,
        },
{
    match b {
        Some(b) => {
            let c = b.clone();
            assert(c@ =~= b@);
            Some(c)
        },
        None => None,
    }
}

impl Clone for ScalarValue {
    fn clone(&self) -> (r: Self)
        ensures
            r@ == self@,
    {
        match self {
            ScalarValue::Null => ScalarValue::Null,
            ScalarValue::Boolean(v) => ScalarValue::Boolean(*v),
            ScalarValue::Int8(v) => ScalarValue::Int8(*v),
            ScalarValue::Int16(v) => ScalarValue::Int16(*v),
            ScalarValue::Int32(v) => ScalarValue::Int32(*v),
            ScalarValue::Int64(v) => ScalarValue::Int64(*v),
            ScalarValue::UInt8(v) => ScalarValue::UInt8(*v),
            ScalarValue::UInt16(v) => ScalarValue::UInt16(*v),
            ScalarValue::UInt32(v) => ScalarValue::UInt32(*v),
            ScalarValue::UInt64(v) => ScalarValue::UInt64(*v),
            ScalarValue::Date32(v) => ScalarValue::Date32(*v),
            ScalarValue::Date64(v) => ScalarValue::Date64(*v),
            ScalarValue::Time32Second(v) => ScalarValue::Time32Second(*v),
            ScalarValue::Time32Millisecond(v) => ScalarValue::Time32Millisecond(*v),
            ScalarValue::Time64Microsecond(v) => ScalarValue::Time64Microsecond(*v),
            ScalarValue::Time64Nanosecond(v) => ScalarValue::Time64Nanosecond(*v),
            ScalarValue::Float32(v) => ScalarValue::Float32(*v),
            ScalarValue::Float64(v) => ScalarValue::Float64(*v),
            ScalarValue::Decimal128(v, p, s) => ScalarValue::Decimal128(*v, *p, *s),
            ScalarValue::Float16(v) => ScalarValue::Float16(*v),
            ScalarValue::Decimal32(v, p, s) => ScalarValue::Decimal32(*v, *p, *s),
            ScalarValue::Decimal64(v, p, s) => ScalarValue::Decimal64(*v, *p, *s),
            ScalarValue::Decimal256(v, p, s) => ScalarValue::Decimal256(*v, *p, *s),
            ScalarValue::IntervalYearMonth(v) => ScalarValue::IntervalYearMonth(*v),
            ScalarValue::IntervalDayTime(v) => ScalarValue::IntervalDayTime(*v),
            ScalarValue::IntervalMonthDayNano(v) => ScalarValue::IntervalMonthDayNano(*v),
            ScalarValue::Utf8(v) => ScalarValue::Utf8(clone_opt_text(v)),
            ScalarValue::LargeUtf8(v) => ScalarValue::LargeUtf8(clone_opt_text(v)),
            ScalarValue::Utf8View(v) => ScalarValue::Utf8View(clone_opt_text(v)),
            ScalarValue::Binary(v) => ScalarValue::Binary(clone_opt_bytes(v)),
            ScalarValue::LargeBinary(v) => ScalarValue::LargeBinary(clone_opt_bytes(v)),
            ScalarValue::BinaryView(v) => ScalarValue::BinaryView(clone_opt_bytes(v)),
            ScalarValue::FixedSizeBinary(n, v) => ScalarValue::FixedSizeBinary(*n, clone_opt_bytes(v)),
            ScalarValue::TimestampSecond(v, tz) => ScalarValue::TimestampSecond(*v, clone_opt_text(tz)),
            ScalarValue::TimestampMillisecond(v, tz) => ScalarValue::TimestampMillisecond(*v, clone_opt_text(tz)),
            ScalarValue::TimestampMicrosecond(v, tz) => ScalarValue::TimestampMicrosecond(*v, clone_opt_text(tz)),
            ScalarValue::TimestampNanosecond(v, tz) => ScalarValue::TimestampNanosecond(*v, clone_opt_text(tz)),
            ScalarValue::DurationSecond(v) => ScalarValue::DurationSecond(*v),
            ScalarValue::DurationMillisecond(v) => ScalarValue::DurationMillisecond(*v),
            ScalarValue::DurationMicrosecond(v) => ScalarValue::DurationMicrosecond(*v),
            ScalarValue::DurationNanosecond(v) => ScalarValue::DurationNanosecond(*v),
        }
    }
}

impl PartialEq for ScalarValue {
    fn eq(&self, other: &ScalarValue) -> (r: bool) {
        self.same(other)
    }
}

impl vstd::std_specs::cmp::PartialEqSpecImpl for ScalarValue {
    open spec fn obeys_eq_spec() -> bool {
        true
    }

    open spec fn eq_spec(&self, other: &ScalarValue) -> bool {
        same_scalar(self@, other@)
    }
}

impl ScalarValue {
    /// The type of the value.
    pub fn data_type(&self) -> (r: DataType)
        ensures
            r@ == self@.data_type,
    {
        match self {
            ScalarValue::Null => DataTypeOf::Null,
            ScalarValue::Boolean(v) => DataTypeOf::Boolean,
            ScalarValue::Int8(v) => DataTypeOf::Int8,
            ScalarValue::Int16(v) => DataTypeOf::Int16,
            ScalarValue::Int32(v) => DataTypeOf::Int32,
            ScalarValue::Int64(v) => DataTypeOf::Int64,
            ScalarValue::UInt8(v) => DataTypeOf::UInt8,
            ScalarValue::UInt16(v) => DataTypeOf::UInt16,
            ScalarValue::UInt32(v) => DataTypeOf::UInt32,
            ScalarValue::UInt64(v) => DataTypeOf::UInt64,
            ScalarValue::Date32(v) => DataTypeOf::Date32,
            ScalarValue::Date64(v) => DataTypeOf::Date64,
            ScalarValue::Time32Second(v) => DataTypeOf::Time32Second,
            ScalarValue::Time32Millisecond(v) => DataTypeOf::Time32Millisecond,
            ScalarValue::Time64Microsecond(v) => DataTypeOf::Time64Microsecond,
            ScalarValue::Time64Nanosecond(v) => DataTypeOf::Time64Nanosecond,
            ScalarValue::Float32(v) => DataTypeOf::Float32,
            ScalarValue::Float64(v) => DataTypeOf::Float64,
            ScalarValue::Decimal128(v, p, s) => DataTypeOf::Decimal128(*p, *s),
            ScalarValue::Float16(v) => DataTypeOf::Float16,
            ScalarValue::Decimal32(v, p, s) => DataTypeOf::Decimal32(*p, *s),
            ScalarValue::Decimal64(v, p, s) => DataTypeOf::Decimal64(*p, *s),
            ScalarValue::Decimal256(v, p, s) => DataTypeOf::Decimal256(*p, *s),
            ScalarValue::IntervalYearMonth(v) => DataTypeOf::IntervalYearMonth,
            ScalarValue::IntervalDayTime(v) => DataTypeOf::IntervalDayTime,
            ScalarValue::IntervalMonthDayNano(v) => DataTypeOf::IntervalMonthDayNano,
            ScalarValue::Utf8(v) => DataTypeOf::Utf8,
            ScalarValue::LargeUtf8(v) => DataTypeOf::LargeUtf8,
            ScalarValue::Utf8View(v) => DataTypeOf::Utf8View,
            ScalarValue::Binary(v) => DataTypeOf::Binary,
            ScalarValue::LargeBinary(v) => DataTypeOf::LargeBinary,
            ScalarValue::BinaryView(v) => DataTypeOf::BinaryView,
            ScalarValue::FixedSizeBinary(n, v) => DataTypeOf::FixedSizeBinary(*n),
            ScalarValue::TimestampSecond(v, tz) => DataTypeOf::Timestamp(TimeUnit::Second, clone_opt_text(tz)),
            ScalarValue::TimestampMillisecond(v, tz) => DataTypeOf::Timestamp(TimeUnit::Millisecond, clone_opt_text(tz)),
            ScalarValue::TimestampMicrosecond(v, tz) => DataTypeOf::Timestamp(TimeUnit::Microsecond, clone_opt_text(tz)),
            ScalarValue::TimestampNanosecond(v, tz) => DataTypeOf::Timestamp(TimeUnit::Nanosecond, clone_opt_text(tz)),
            ScalarValue::DurationSecond(v) => DataTypeOf::Duration(TimeUnit::Second),
            ScalarValue::DurationMillisecond(v) => DataTypeOf::Duration(TimeUnit::Millisecond),
            ScalarValue::DurationMicrosecond(v) => DataTypeOf::Duration(TimeUnit::Microsecond),
            ScalarValue::DurationNanosecond(v) => DataTypeOf::Duration(TimeUnit::Nanosecond),
        }
    }

    fn key_ref(&self) -> (r: KeyRef<'_>)
        ensures
            r.key() == self@.key,
            r is Wide ==> self@.data_type is Decimal256,
            r is Int ==> !(self@.data_type is Decimal256),
    {
        match self {
            ScalarValue::Null => KeyRef::Null,
            ScalarValue::Boolean(v) => match v {
                Some(x) => KeyRef::Int(if *x { 1 } else { 0 }),
                None => KeyRef::Null,
            },
            ScalarValue::Int8(v) => match v {
                Some(x) => KeyRef::Int(*x as i128),
                None => KeyRef::Null,
            },
            ScalarValue::Int16(v) => match v {
                Some(x) => KeyRef::Int(*x as i128),
                None => KeyRef::Null,
            },
            ScalarValue::Int32(v) => match v {
                Some(x) => KeyRef::Int(*x as i128),
                None => KeyRef::Null,
            },
            ScalarValue::Int64(v) => match v {
                Some(x) => KeyRef::Int(*x as i128),
                None => KeyRef::Null,
            },
            ScalarValue::UInt8(v) => match v {
                Some(x) => KeyRef::Int(*x as i128),
                None => KeyRef::Null,
            },
            ScalarValue::UInt16(v) => match v {
                Some(x) => KeyRef::Int(*x as i128),
                None => KeyRef::Null,
            },
            ScalarValue::UInt32(v) => match v {
                Some(x) => KeyRef::Int(*x as i128),
                None => KeyRef::Null,
            },
            ScalarValue::UInt64(v) => match v {
                Some(x) => KeyRef::Int(*x as i128),
                None => KeyRef::Null,
            },
            ScalarValue::Date32(v) => match v {
                Some(x) => KeyRef::Int(*x as i128),
                None => KeyRef::Null,
            },
            ScalarValue::Date64(v) => match v {
                Some(x) => KeyRef::Int(*x as i128),
                None => KeyRef::Null,
            },
            ScalarValue::Time32Second(v) => match v {
                Some(x) => KeyRef::Int(*x as i128),
                None => KeyRef::Null,
            },
            ScalarValue::Time32Millisecond(v) => match v {
                Some(x) => KeyRef::Int(*x as i128),
                None => KeyRef::Null,
            },
            ScalarValue::Time64Microsecond(v) => match v {
                Some(x) => KeyRef::Int(*x as i128),
                None => KeyRef::Null,
            },
            ScalarValue::Time64Nanosecond(v) => match v {
                Some(x) => KeyRef::Int(*x as i128),
                None => KeyRef::Null,
            },
            ScalarValue::Float32(v) => match v {
                Some(x) => KeyRef::Int(rank32(*x)),
                None => KeyRef::Null,
            },
            ScalarValue::Float64(v) => match v {
                Some(x) => KeyRef::Int(rank64(*x)),
                None => KeyRef::Null,
            },
            ScalarValue::Float16(v) => match v {
                Some(x) => KeyRef::Int(rank16(*x)),
                None => KeyRef::Null,
            },
            ScalarValue::Decimal32(v, p, s) => match v {
                Some(x) => KeyRef::Int(*x as i128),
                None => KeyRef::Null,
            },
            ScalarValue::Decimal64(v, p, s) => match v {
                Some(x) => KeyRef::Int(*x as i128),
                None => KeyRef::Null,
            },
            ScalarValue::Decimal256(v, p, s) => match v {
                Some(x) => KeyRef::Wide(*x),
                None => KeyRef::Null,
            },
            ScalarValue::IntervalYearMonth(v) => match v {
                Some(x) => KeyRef::Int(*x as i128),
                None => KeyRef::Null,
            },
            ScalarValue::IntervalDayTime(v) => match v {
                Some(x) => KeyRef::Int(
                    x.days as i128 * 0x1_0000_0000 + x.milliseconds as i128,
                ),
                None => KeyRef::Null,
            },
            ScalarValue::IntervalMonthDayNano(v) => match v {
                Some(x) => KeyRef::Int(
                    x.months as i128 * 0x1_0000_0000_0000_0000_0000_0000 + (x.days as i128
                        + 0x8000_0000) * 0x1_0000_0000_0000_0000 + (x.nanoseconds as i128
                        + 0x8000_0000_0000_0000),
                ),
                None => KeyRef::Null,
            },
            ScalarValue::Decimal128(v, p, s) => match v {
                Some(x) => KeyRef::Int(*x),
                None => KeyRef::Null,
            },
            ScalarValue::Utf8(v) => match v {
                Some(x) => KeyRef::Text(x),
                None => KeyRef::Null,
            },
            ScalarValue::LargeUtf8(v) => match v {
                Some(x) => KeyRef::Text(x),
                None => KeyRef::Null,
            },
            ScalarValue::Utf8View(v) => match v {
                Some(x) => KeyRef::Text(x),
                None => KeyRef::Null,
            },
            ScalarValue::Binary(v) => match v {
                Some(x) => KeyRef::Bytes(x),
                None => KeyRef::Null,
            },
            ScalarValue::LargeBinary(v) => match v {
                Some(x) => KeyRef::Bytes(x),
                None => KeyRef::Null,
            },
            ScalarValue::BinaryView(v) => match v {
                Some(x) => KeyRef::Bytes(x),
                None => KeyRef::Null,
            },
            ScalarValue::FixedSizeBinary(n, v) => match v {
                Some(x) => KeyRef::Bytes(x),
                None => KeyRef::Null,
            },
            ScalarValue::TimestampSecond(v, tz) => match v {
                Some(x) => KeyRef::Int(*x as i128),
                None => KeyRef::Null,
            },
            ScalarValue::TimestampMillisecond(v, tz) => match v {
                Some(x) => KeyRef::Int(*x as i128),
                None => KeyRef::Null,
            },
            ScalarValue::TimestampMicrosecond(v, tz) => match v {
                Some(x) => KeyRef::Int(*x as i128),
                None => KeyRef::Null,
            },
            ScalarValue::TimestampNanosecond(v, tz) => match v {
                Some(x) => KeyRef::Int(*x as i128),
                None => KeyRef::Null,
            },
            ScalarValue::DurationSecond(v) => match v {
                Some(x) => KeyRef::Int(*x as i128),
                None => KeyRef::Null,
            },
            ScalarValue::DurationMillisecond(v) => match v {
                Some(x) => KeyRef::Int(*x as i128),
                None => KeyRef::Null,
            },
            ScalarValue::DurationMicrosecond(v) => match v {
                Some(x) => KeyRef::Int(*x as i128),
                None => KeyRef::Null,
            },
            ScalarValue::DurationNanosecond(v) => match v {
                Some(x) => KeyRef::Int(*x as i128),
                None => KeyRef::Null,
            },
        }
    }

    /// The null of a type.
    pub fn null_of(data_type: &DataType) -> (r: ScalarValue)
        ensures
            r@ == (ScalarView { data_type: data_type@, key: None }),
    {
        match data_type {
            DataTypeOf::Null => ScalarValue::Null,
            DataTypeOf::Boolean => ScalarValue::Boolean(None),
            DataTypeOf::Int8 => ScalarValue::Int8(None),
            DataTypeOf::Int16 => ScalarValue::Int16(None),
            DataTypeOf::Int32 => ScalarValue::Int32(None),
            DataTypeOf::Int64 => ScalarValue::Int64(None),
            DataTypeOf::UInt8 => ScalarValue::UInt8(None),
            DataTypeOf::UInt16 => ScalarValue::UInt16(None),
            DataTypeOf::UInt32 => ScalarValue::UInt32(None),
            DataTypeOf::UInt64 => ScalarValue::UInt64(None),
            DataTypeOf::Float32 => ScalarValue::Float32(None),
            DataTypeOf::Float64 => ScalarValue::Float64(None),
            DataTypeOf::Utf8 => ScalarValue::Utf8(None),
            DataTypeOf::LargeUtf8 => ScalarValue::LargeUtf8(None),
            DataTypeOf::Utf8View => ScalarValue::Utf8View(None),
            DataTypeOf::Binary => ScalarValue::Binary(None),
            DataTypeOf::LargeBinary => ScalarValue::LargeBinary(None),
            DataTypeOf::BinaryView => ScalarValue::BinaryView(None),
            DataTypeOf::Date32 => ScalarValue::Date32(None),
            DataTypeOf::Date64 => ScalarValue::Date64(None),
            DataTypeOf::Time32Second => ScalarValue::Time32Second(None),
            DataTypeOf::Time32Millisecond => ScalarValue::Time32Millisecond(None),
            DataTypeOf::Time64Microsecond => ScalarValue::Time64Microsecond(None),
            DataTypeOf::Time64Nanosecond => ScalarValue::Time64Nanosecond(None),
            DataTypeOf::Decimal128(p, s) => ScalarValue::Decimal128(None, *p, *s),
            DataTypeOf::Float16 => ScalarValue::Float16(None),
            DataTypeOf::Decimal32(p, s) => ScalarValue::Decimal32(None, *p, *s),
            DataTypeOf::Decimal64(p, s) => ScalarValue::Decimal64(None, *p, *s),
            DataTypeOf::Decimal256(p, s) => ScalarValue::Decimal256(None, *p, *s),
            DataTypeOf::IntervalYearMonth => ScalarValue::IntervalYearMonth(None),
            DataTypeOf::IntervalDayTime => ScalarValue::IntervalDayTime(None),
            DataTypeOf::IntervalMonthDayNano => ScalarValue::IntervalMonthDayNano(None),
            DataTypeOf::FixedSizeBinary(n) => ScalarValue::FixedSizeBinary(*n, None),
            DataTypeOf::Timestamp(TimeUnit::Second, tz) => ScalarValue::TimestampSecond(None, clone_opt_text(tz)),
            DataTypeOf::Timestamp(TimeUnit::Millisecond, tz) => ScalarValue::TimestampMillisecond(None, clone_opt_text(tz)),
            DataTypeOf::Timestamp(TimeUnit::Microsecond, tz) => ScalarValue::TimestampMicrosecond(None, clone_opt_text(tz)),
            DataTypeOf::Timestamp(TimeUnit::Nanosecond, tz) => ScalarValue::TimestampNanosecond(None, clone_opt_text(tz)),
            DataTypeOf::Duration(TimeUnit::Second) => ScalarValue::DurationSecond(None),
            DataTypeOf::Duration(TimeUnit::Millisecond) => ScalarValue::DurationMillisecond(None),
            DataTypeOf::Duration(TimeUnit::Microsecond) => ScalarValue::DurationMicrosecond(None),
            DataTypeOf::Duration(TimeUnit::Nanosecond) => ScalarValue::DurationNanosecond(None),
        }
    }

    /// The value with the type's parameters in place of its own.
    pub fn retyped(&self, data_type: &DataType) -> (r: ScalarValue)
        requires
            crate::datatype::variant_of(self@.data_type) == crate::datatype::variant_of(
                data_type@,
            ),
        ensures
            r@ == with_type(self@, data_type@),
    {
        match (self, data_type) {
            (ScalarValue::Decimal128(v, _, _), DataTypeOf::Decimal128(p, s)) => {
                ScalarValue::Decimal128(*v, *p, *s)
            },
            (ScalarValue::Decimal32(v, _, _), DataTypeOf::Decimal32(p, s)) => {
                ScalarValue::Decimal32(*v, *p, *s)
            },
            (ScalarValue::Decimal64(v, _, _), DataTypeOf::Decimal64(p, s)) => {
                ScalarValue::Decimal64(*v, *p, *s)
            },
            (ScalarValue::Decimal256(v, _, _), DataTypeOf::Decimal256(p, s)) => {
                ScalarValue::Decimal256(*v, *p, *s)
            },
            (ScalarValue::FixedSizeBinary(_, v), DataTypeOf::FixedSizeBinary(n)) => {
                ScalarValue::FixedSizeBinary(*n, clone_opt_bytes(v))
            },
            (ScalarValue::TimestampSecond(v, _), DataTypeOf::Timestamp(_, tz)) => {
                ScalarValue::TimestampSecond(*v, clone_opt_text(tz))
            },
            (ScalarValue::TimestampMillisecond(v, _), DataTypeOf::Timestamp(_, tz)) => {
                ScalarValue::TimestampMillisecond(*v, clone_opt_text(tz))
            },
            (ScalarValue::TimestampMicrosecond(v, _), DataTypeOf::Timestamp(_, tz)) => {
                ScalarValue::TimestampMicrosecond(*v, clone_opt_text(tz))
            },
            (ScalarValue::TimestampNanosecond(v, _), DataTypeOf::Timestamp(_, tz)) => {
                ScalarValue::TimestampNanosecond(*v, clone_opt_text(tz))
            },
            _ => self.clone(),
        }
    }

    /// Whether the value is null.
    pub fn is_null(&self) -> (r: bool)
        ensures
            r == self@.is_null(),
    {
        match self.key_ref() {
            KeyRef::Null => true,
            _ => false,
        }
    }

    /// Whether two values are equal: of one kind, and both null or with equal
    /// keys.
    pub fn same(&self, other: &ScalarValue) -> (r: bool)
        ensures
            r == same_scalar(self@, other@),
    {
        proof {
            scalar_order_equal(self@, other@);
        }
        match self.order(other) {
            Some(Order::Equal) => true,
            _ => false,
        }
    }

    /// Whether this value is the wanted one. Any null is, where null is wanted,
    /// whatever the type of either.
    pub fn answers(&self, wanted: &ScalarValue) -> (r: bool)
        ensures
            r == is_wanted(self@, wanted@),
    {
        if wanted.is_null() {
            self.is_null()
        } else {
            self.same(wanted)
        }
    }

    /// How two values compare; nothing for values of different kinds.
    pub fn order(&self, other: &ScalarValue) -> (r: Option<Order>)
        ensures
            r == scalar_order(self@, other@),
    {
        if !same_kind(&self.data_type(), &other.data_type()) {
            return None;
        }
        let r = match (self.key_ref(), other.key_ref()) {
            (KeyRef::Null, KeyRef::Null) => Order::Equal,
            (KeyRef::Null, _) => Order::Less,
            (_, KeyRef::Null) => Order::Greater,
            (KeyRef::Int(a), KeyRef::Int(b)) => {
                if a < b {
                    Order::Less
                } else if a == b {
                    Order::Equal
                } else {
                    Order::Greater
                }
            },
            (KeyRef::Wide(a), KeyRef::Wide(b)) => wide_order(a, b),
            (KeyRef::Text(a), KeyRef::Text(b)) => text_order(a.as_str(), b.as_str()),
            (KeyRef::Bytes(a), KeyRef::Bytes(b)) => bytes_order(a, b),
            (KeyRef::Int(_), _) => Order::Less,
            (_, KeyRef::Int(_)) => Order::Greater,
            (KeyRef::Wide(_), _) => Order::Less,
            (_, KeyRef::Wide(_)) => Order::Greater,
            (KeyRef::Text(_), _) => Order::Less,
            (KeyRef::Bytes(_), _) => Order::Greater,
        };
        Some(r)
    }
}

/// The value with another type.
pub open spec fn with_type(v: ScalarView, t: DataTypeView) -> ScalarView {
    ScalarView { data_type: t, key: v.key }
}

pub open spec fn int_order(a: int, b: int) -> Order {
    if a < b {
        Order::Less
    } else if a == b {
        Order::Equal
    } else {
        Order::Greater
    }
}

/// Lexicographic order: the first difference decides, a proper prefix comes
/// first.
pub open spec fn seq_order(a: Seq<int>, b: Seq<int>) -> Order
    decreases a.len(),
{
    if a.len() == 0 && b.len() == 0 {
        Order::Equal
    } else if a.len() == 0 {
        Order::Less
    } else if b.len() == 0 {
        Order::Greater
    } else if a[0] != b[0] {
        int_order(a[0], b[0])
    } else {
        seq_order(a.drop_first(), b.drop_first())
    }
}

/// The code points of a text.
pub open spec fn code_points(s: Seq<char>) -> Seq<int> {
    Seq::new(s.len(), |i: int| s[i] as int)
}

/// The bytes as integers.
pub open spec fn byte_values(s: Seq<u8>) -> Seq<int> {
    Seq::new(s.len(), |i: int| s[i] as int)
}

/// The order of keys. Keys of one kind have one shape; between shapes,
/// integers come before texts and texts before bytes.
pub open spec fn key_order(a: ScalarKey, b: ScalarKey) -> Order {
    match (a, b) {
        (ScalarKey::Int(x), ScalarKey::Int(y)) => int_order(x, y),
        (ScalarKey::Text(x), ScalarKey::Text(y)) => seq_order(code_points(x), code_points(y)),
        (ScalarKey::Bytes(x), ScalarKey::Bytes(y)) => seq_order(byte_values(x), byte_values(y)),
        (ScalarKey::Int(_), _) => Order::Less,
        (_, ScalarKey::Int(_)) => Order::Greater,
        (ScalarKey::Text(_), _) => Order::Less,
        (ScalarKey::Bytes(_), _) => Order::Greater,
    }
}

/// The order of optional keys: null first.
pub open spec fn opt_key_order(a: Option<ScalarKey>, b: Option<ScalarKey>) -> Order {
    match (a, b) {
        (None, None) => Order::Equal,
        (None, Some(_)) => Order::Less,
        (Some(_), None) => Order::Greater,
        (Some(x), Some(y)) => key_order(x, y),
    }
}

/// How two values compare; nothing for values of different kinds.
pub open spec fn scalar_order(a: ScalarView, b: ScalarView) -> Option<Order> {
    if crate::datatype::kind_of(a.data_type) == crate::datatype::kind_of(b.data_type) {
        Some(opt_key_order(a.key, b.key))
    } else {
        None
    }
}

/// Values are equal when they are of one kind and both null or with equal keys.
pub open spec fn same_scalar(a: ScalarView, b: ScalarView) -> bool {
    &&& crate::datatype::kind_of(a.data_type) == crate::datatype::kind_of(b.data_type)
    &&& a.key == b.key
}

/// A value is the wanted one when it equals it. To want null is to want any
/// null: a null has no value that could differ, so the type it was given is not
/// looked at, even where it is a type other than the column's.
pub open spec fn is_wanted(value: ScalarView, wanted: ScalarView) -> bool {
    if wanted.is_null() {
        value.is_null()
    } else {
        same_scalar(value, wanted)
    }
}

fn wide_order(a: WideInt, b: WideInt) -> (r: Order)
    ensures
        r == int_order(wide_value(a), wide_value(b)),
{
    if a.high < b.high || (a.high == b.high && a.low < b.low) {
        Order::Less
    } else if a.high == b.high && a.low == b.low {
        Order::Equal
    } else {
        Order::Greater
    }
}

fn text_order(a: &str, b: &str) -> (r: Order)
    ensures
        r == seq_order(code_points(a@), code_points(b@)),
{
    let n = a.unicode_len();
    let m = b.unicode_len();
    let ghost x = code_points(a@);
    let ghost y = code_points(b@);
    let mut i: usize = 0;
    assert(x.skip(0) =~= x && y.skip(0) =~= y);
    while i < n && i < m
        invariant
            x == code_points(a@),
            y == code_points(b@),
            n == a@.len(),
            m == b@.len(),
            i <= n,
            i <= m,
            seq_order(x, y) == seq_order(x.skip(i as int), y.skip(i as int)),
        decreases n - i,
    {
        let c = a.get_char(i);
        let d = b.get_char(i);
        assert(x.skip(i as int)[0] == c as int && y.skip(i as int)[0] == d as int);
        if c as u32 != d as u32 {
            return if (c as u32) < d as u32 {
                Order::Less
            } else {
                Order::Greater
            };
        }
        assert(x.skip(i as int).drop_first() =~= x.skip(i + 1));
        assert(y.skip(i as int).drop_first() =~= y.skip(i + 1));
        i += 1;
    }
    if n == m {
        Order::Equal
    } else if n < m {
        Order::Less
    } else {
        Order::Greater
    }
}

/// Lexicographic order of byte strings.
pub fn bytes_order(a: &Vec<u8>, b: &Vec<u8>) -> (r: Order)
    ensures
        r == seq_order(byte_values(a@), byte_values(b@)),
{
    let n = a.len();
    let m = b.len();
    let ghost x = byte_values(a@);
    let ghost y = byte_values(b@);
    let mut i: usize = 0;
    assert(x.skip(0) =~= x && y.skip(0) =~= y);
    while i < n && i < m
        invariant
            x == byte_values(a@),
            y == byte_values(b@),
            n == a@.len(),
            m == b@.len(),
            i <= n,
            i <= m,
            seq_order(x, y) == seq_order(x.skip(i as int), y.skip(i as int)),
        decreases n - i,
    {
        assert(x.skip(i as int)[0] == a@[i as int] && y.skip(i as int)[0] == b@[i as int]);
        if a[i] != b[i] {
            return if a[i] < b[i] {
                Order::Less
            } else {
                Order::Greater
            };
        }
        assert(x.skip(i as int).drop_first() =~= x.skip(i + 1));
        assert(y.skip(i as int).drop_first() =~= y.skip(i + 1));
        i += 1;
    }
    if n == m {
        Order::Equal
    } else if n < m {
        Order::Less
    } else {
        Order::Greater
    }
}

/// The opposite outcome.
pub open spec fn flip(o: Order) -> Order {
    match o {
        Order::Less => Order::Greater,
        Order::Equal => Order::Equal,
        Order::Greater => Order::Less,
    }
}

/// Lexicographic comparison gives equal exactly on equal sequences.
pub proof fn seq_order_equal(a: Seq<int>, b: Seq<int>)
    ensures
        seq_order(a, b) == Order::Equal <==> a == b,
    decreases a.len(),
{
    if a.len() == 0 || b.len() == 0 {
        if a.len() == 0 && b.len() == 0 {
            assert(a =~= b);
        }
    } else if a[0] == b[0] {
        seq_order_equal(a.drop_first(), b.drop_first());
        if a.drop_first() == b.drop_first() {
            assert(a =~= seq![a[0]] + a.drop_first());
            assert(b =~= seq![b[0]] + b.drop_first());
        }
    }
}

/// Swapping the operands flips the outcome.
pub proof fn seq_order_flip(a: Seq<int>, b: Seq<int>)
    ensures
        seq_order(b, a) == flip(seq_order(a, b)),
    decreases a.len(),
{
    if a.len() > 0 && b.len() > 0 && a[0] == b[0] {
        seq_order_flip(a.drop_first(), b.drop_first());
    }
}

/// Lexicographic comparison is transitive.
pub proof fn seq_order_transitive(a: Seq<int>, b: Seq<int>, c: Seq<int>)
    requires
        seq_order(a, b) != Order::Greater,
        seq_order(b, c) != Order::Greater,
    ensures
        seq_order(a, c) != Order::Greater,
        seq_order(a, c) == Order::Equal ==> seq_order(a, b) == Order::Equal,
        seq_order(a, c) == Order::Equal ==> seq_order(b, c) == Order::Equal,
    decreases a.len(),
{
    if a.len() > 0 && b.len() > 0 && c.len() > 0 && a[0] == b[0] && b[0] == c[0] {
        seq_order_transitive(a.drop_first(), b.drop_first(), c.drop_first());
    }
}

proof fn key_order_equal(a: ScalarKey, b: ScalarKey)
    ensures
        key_order(a, b) == Order::Equal <==> a == b,
{
    match (a, b) {
        (ScalarKey::Text(x), ScalarKey::Text(y)) => {
            seq_order_equal(code_points(x), code_points(y));
            if code_points(x) == code_points(y) {
                assert(x.len() == y.len());
                assert forall|i: int| 0 <= i < x.len() implies x[i] == y[i] by {
                    assert(code_points(x)[i] == code_points(y)[i]);
                }
                assert(x =~= y);
            }
        },
        (ScalarKey::Bytes(x), ScalarKey::Bytes(y)) => {
            seq_order_equal(byte_values(x), byte_values(y));
            if byte_values(x) == byte_values(y) {
                assert(x.len() == y.len());
                assert forall|i: int| 0 <= i < x.len() implies x[i] == y[i] by {
                    assert(byte_values(x)[i] == byte_values(y)[i]);
                }
                assert(x =~= y);
            }
        },
        _ => {},
    }
}

proof fn key_order_flip(a: ScalarKey, b: ScalarKey)
    ensures
        key_order(b, a) == flip(key_order(a, b)),
{
    match (a, b) {
        (ScalarKey::Text(x), ScalarKey::Text(y)) => {
            seq_order_flip(code_points(x), code_points(y));
        },
        (ScalarKey::Bytes(x), ScalarKey::Bytes(y)) => {
            seq_order_flip(byte_values(x), byte_values(y));
        },
        _ => {},
    }
}

proof fn key_order_transitive(a: ScalarKey, b: ScalarKey, c: ScalarKey)
    requires
        key_order(a, b) != Order::Greater,
        key_order(b, c) != Order::Greater,
    ensures
        key_order(a, c) != Order::Greater,
        key_order(a, c) == Order::Equal ==> key_order(a, b) == Order::Equal,
        key_order(a, c) == Order::Equal ==> key_order(b, c) == Order::Equal,
{
    match (a, b, c) {
        (ScalarKey::Text(x), ScalarKey::Text(y), ScalarKey::Text(z)) => {
            seq_order_transitive(code_points(x), code_points(y), code_points(z));
        },
        (ScalarKey::Bytes(x), ScalarKey::Bytes(y), ScalarKey::Bytes(z)) => {
            seq_order_transitive(byte_values(x), byte_values(y), byte_values(z));
        },
        _ => {},
    }
}

/// Two values compare as equal exactly when they are equal.
pub proof fn scalar_order_equal(a: ScalarView, b: ScalarView)
    ensures
        scalar_order(a, b) == Some(Order::Equal) <==> same_scalar(a, b),
{
    match (a.key, b.key) {
        (Some(x), Some(y)) => key_order_equal(x, y),
        _ => {},
    }
}

/// Swapping the operands of a comparison flips its outcome.
pub proof fn scalar_order_flip(a: ScalarView, b: ScalarView)
    ensures
        match scalar_order(a, b) {
            Some(o) => scalar_order(b, a) == Some(flip(o)),
            None => scalar_order(b, a) is None,
        },
{
    match (a.key, b.key) {
        (Some(x), Some(y)) => key_order_flip(x, y),
        _ => {},
    }
}

/// `a` is comparable with `b` and not greater.
pub open spec fn scalar_le(a: ScalarView, b: ScalarView) -> bool {
    scalar_order(a, b) == Some(Order::Less) || scalar_order(a, b) == Some(Order::Equal)
}

/// Comparison of values is transitive.
pub proof fn scalar_order_transitive(a: ScalarView, b: ScalarView, c: ScalarView)
    requires
        scalar_le(a, b),
        scalar_le(b, c),
    ensures
        scalar_le(a, c),
        scalar_order(a, c) == Some(Order::Equal) ==> scalar_order(a, b) == Some(Order::Equal),
        scalar_order(a, c) == Some(Order::Equal) ==> scalar_order(b, c) == Some(Order::Equal),
{
    match (a.key, b.key, c.key) {
        (Some(x), Some(y), Some(z)) => key_order_transitive(x, y, z),
        _ => {},
    }
}

/// The views of a vector of values.
pub open spec fn scalars(v: Seq<ScalarValue>) -> Seq<ScalarView> {
    Seq::new(v.len(), |i: int| v[i]@)
}

/// A copy of a vector of values.
pub fn clone_scalars(v: &Vec<ScalarValue>) -> (r: Vec<ScalarValue>)
    ensures
        scalars(r@) == scalars(v@),
{
    let mut out: Vec<ScalarValue> = Vec::new();
    for i in 0..v.len()
        invariant
            out@.len() == i,
            forall|j: int| 0 <= j < i ==> (#[trigger] out@[j])@ == v@[j]@,
    {
        out.push(v[i].clone());
    }
    assert(scalars(out@) =~= scalars(v@));
    out
}

/// Two values compare as these two numbers do.
pub open spec fn compare_as(x: ScalarValue, y: ScalarValue, a: int, b: int) -> bool {
    &&& a < b <==> scalar_order(x@, y@) == Some(Order::Less)
    &&& a == b <==> scalar_order(x@, y@) == Some(Order::Equal)
    &&& a > b <==> scalar_order(x@, y@) == Some(Order::Greater)
}

/// Signed and unsigned integers compare as the numbers they hold, over the whole
/// range of their type.
#[verifier::spinoff_prover]
#[verifier::rlimit(40)]
pub proof fn integers_compare_as_numbers(a: int, b: int)
    ensures
        i8::MIN <= a <= i8::MAX && i8::MIN <= b <= i8::MAX ==> compare_as(
            ScalarValue::Int8(Some(a as i8)),
            ScalarValue::Int8(Some(b as i8)),
            a,
            b,
        ),
        i16::MIN <= a <= i16::MAX && i16::MIN <= b <= i16::MAX ==> compare_as(
            ScalarValue::Int16(Some(a as i16)),
            ScalarValue::Int16(Some(b as i16)),
            a,
            b,
        ),
        i32::MIN <= a <= i32::MAX && i32::MIN <= b <= i32::MAX ==> compare_as(
            ScalarValue::Int32(Some(a as i32)),
            ScalarValue::Int32(Some(b as i32)),
            a,
            b,
        ),
        i64::MIN <= a <= i64::MAX && i64::MIN <= b <= i64::MAX ==> compare_as(
            ScalarValue::Int64(Some(a as i64)),
            ScalarValue::Int64(Some(b as i64)),
            a,
            b,
        ),
        u8::MIN <= a <= u8::MAX && u8::MIN <= b <= u8::MAX ==> compare_as(
            ScalarValue::UInt8(Some(a as u8)),
            ScalarValue::UInt8(Some(b as u8)),
            a,
            b,
        ),
        u16::MIN <= a <= u16::MAX && u16::MIN <= b <= u16::MAX ==> compare_as(
            ScalarValue::UInt16(Some(a as u16)),
            ScalarValue::UInt16(Some(b as u16)),
            a,
            b,
        ),
        u32::MIN <= a <= u32::MAX && u32::MIN <= b <= u32::MAX ==> compare_as(
            ScalarValue::UInt32(Some(a as u32)),
            ScalarValue::UInt32(Some(b as u32)),
            a,
            b,
        ),
        u64::MIN <= a <= u64::MAX && u64::MIN <= b <= u64::MAX ==> compare_as(
            ScalarValue::UInt64(Some(a as u64)),
            ScalarValue::UInt64(Some(b as u64)),
            a,
            b,
        ),
{
}

/// Dates and times of day compare as the numbers they hold, over the whole range
/// of their type.
#[verifier::spinoff_prover]
#[verifier::rlimit(40)]
pub proof fn dates_compare_as_numbers(a: int, b: int)
    ensures
        i32::MIN <= a <= i32::MAX && i32::MIN <= b <= i32::MAX ==> compare_as(
            ScalarValue::Date32(Some(a as i32)),
            ScalarValue::Date32(Some(b as i32)),
            a,
            b,
        ),
        i64::MIN <= a <= i64::MAX && i64::MIN <= b <= i64::MAX ==> compare_as(
            ScalarValue::Date64(Some(a as i64)),
            ScalarValue::Date64(Some(b as i64)),
            a,
            b,
        ),
        i32::MIN <= a <= i32::MAX && i32::MIN <= b <= i32::MAX ==> compare_as(
            ScalarValue::Time32Second(Some(a as i32)),
            ScalarValue::Time32Second(Some(b as i32)),
            a,
            b,
        ),
        i32::MIN <= a <= i32::MAX && i32::MIN <= b <= i32::MAX ==> compare_as(
            ScalarValue::Time32Millisecond(Some(a as i32)),
            ScalarValue::Time32Millisecond(Some(b as i32)),
            a,
            b,
        ),
        i64::MIN <= a <= i64::MAX && i64::MIN <= b <= i64::MAX ==> compare_as(
            ScalarValue::Time64Microsecond(Some(a as i64)),
            ScalarValue::Time64Microsecond(Some(b as i64)),
            a,
            b,
        ),
        i64::MIN <= a <= i64::MAX && i64::MIN <= b <= i64::MAX ==> compare_as(
            ScalarValue::Time64Nanosecond(Some(a as i64)),
            ScalarValue::Time64Nanosecond(Some(b as i64)),
            a,
            b,
        ),
{
}

/// Durations compare as the numbers they hold, and so do months, over the whole
/// range of their type.
#[verifier::spinoff_prover]
#[verifier::rlimit(40)]
pub proof fn durations_compare_as_numbers(a: int, b: int)
    ensures
        i64::MIN <= a <= i64::MAX && i64::MIN <= b <= i64::MAX ==> compare_as(
            ScalarValue::DurationSecond(Some(a as i64)),
            ScalarValue::DurationSecond(Some(b as i64)),
            a,
            b,
        ),
        i64::MIN <= a <= i64::MAX && i64::MIN <= b <= i64::MAX ==> compare_as(
            ScalarValue::DurationMillisecond(Some(a as i64)),
            ScalarValue::DurationMillisecond(Some(b as i64)),
            a,
            b,
        ),
        i64::MIN <= a <= i64::MAX && i64::MIN <= b <= i64::MAX ==> compare_as(
            ScalarValue::DurationMicrosecond(Some(a as i64)),
            ScalarValue::DurationMicrosecond(Some(b as i64)),
            a,
            b,
        ),
        i64::MIN <= a <= i64::MAX && i64::MIN <= b <= i64::MAX ==> compare_as(
            ScalarValue::DurationNanosecond(Some(a as i64)),
            ScalarValue::DurationNanosecond(Some(b as i64)),
            a,
            b,
        ),
        i32::MIN <= a <= i32::MAX && i32::MIN <= b <= i32::MAX ==> compare_as(
            ScalarValue::IntervalYearMonth(Some(a as i32)),
            ScalarValue::IntervalYearMonth(Some(b as i32)),
            a,
            b,
        ),
{
}

/// Decimals of one precision and scale compare as their unscaled numbers; those
/// of different ones do not compare.
pub proof fn decimals_compare_as_numbers(
    a: int,
    b: int,
    v: WideInt,
    w: WideInt,
    p: u8,
    s: i8,
    q: u8,
    t: i8,
)
    ensures
        i32::MIN <= a <= i32::MAX && i32::MIN <= b <= i32::MAX ==> {
            &&& compare_as(
                ScalarValue::Decimal32(Some(a as i32), p, s),
                ScalarValue::Decimal32(Some(b as i32), p, s),
                a,
                b,
            )
            &&& (p, s) != (q, t) ==> scalar_order(
                ScalarValue::Decimal32(Some(a as i32), p, s)@,
                ScalarValue::Decimal32(Some(b as i32), q, t)@,
            ) is None
        },
        i64::MIN <= a <= i64::MAX && i64::MIN <= b <= i64::MAX ==> {
            &&& compare_as(
                ScalarValue::Decimal64(Some(a as i64), p, s),
                ScalarValue::Decimal64(Some(b as i64), p, s),
                a,
                b,
            )
            &&& (p, s) != (q, t) ==> scalar_order(
                ScalarValue::Decimal64(Some(a as i64), p, s)@,
                ScalarValue::Decimal64(Some(b as i64), q, t)@,
            ) is None
        },
        i128::MIN <= a <= i128::MAX && i128::MIN <= b <= i128::MAX ==> {
            &&& compare_as(
                ScalarValue::Decimal128(Some(a as i128), p, s),
                ScalarValue::Decimal128(Some(b as i128), p, s),
                a,
                b,
            )
            &&& (p, s) != (q, t) ==> scalar_order(
                ScalarValue::Decimal128(Some(a as i128), p, s)@,
                ScalarValue::Decimal128(Some(b as i128), q, t)@,
            ) is None
        },
        v.high < w.high || (v.high == w.high && v.low < w.low) <==> scalar_order(
            ScalarValue::Decimal256(Some(v), p, s)@,
            ScalarValue::Decimal256(Some(w), p, s)@,
        ) == Some(Order::Less),
        v == w <==> scalar_order(
            ScalarValue::Decimal256(Some(v), p, s)@,
            ScalarValue::Decimal256(Some(w), p, s)@,
        ) == Some(Order::Equal),
        (p, s) != (q, t) ==> scalar_order(
            ScalarValue::Decimal256(Some(v), p, s)@,
            ScalarValue::Decimal256(Some(w), q, t)@,
        ) is None,
{
}

/// Timestamps compare as the numbers they hold, whatever their time zones.
pub proof fn timestamps_compare_as_numbers(
    a: i64,
    b: i64,
    here: Option<String>,
    there: Option<String>,
)
    ensures
        compare_as(
            ScalarValue::TimestampSecond(Some(a), here),
            ScalarValue::TimestampSecond(Some(b), there),
            a as int,
            b as int,
        ),
        compare_as(
            ScalarValue::TimestampMillisecond(Some(a), here),
            ScalarValue::TimestampMillisecond(Some(b), there),
            a as int,
            b as int,
        ),
        compare_as(
            ScalarValue::TimestampMicrosecond(Some(a), here),
            ScalarValue::TimestampMicrosecond(Some(b), there),
            a as int,
            b as int,
        ),
        compare_as(
            ScalarValue::TimestampNanosecond(Some(a), here),
            ScalarValue::TimestampNanosecond(Some(b), there),
            a as int,
            b as int,
        ),
{
}

/// False comes before true.
pub proof fn booleans_compare(a: bool, b: bool)
    ensures
        !a && b <==> scalar_order(
            ScalarValue::Boolean(Some(a))@,
            ScalarValue::Boolean(Some(b))@,
        ) == Some(Order::Less),
        a == b <==> scalar_order(
            ScalarValue::Boolean(Some(a))@,
            ScalarValue::Boolean(Some(b))@,
        ) == Some(Order::Equal),
        a && !b <==> scalar_order(
            ScalarValue::Boolean(Some(a))@,
            ScalarValue::Boolean(Some(b))@,
        ) == Some(Order::Greater),
{
}

/// Floats without the sign bit compare as their bits, those with it the other
/// way round, and those with it come before those without.
pub proof fn floats_compare_by_sign_and_magnitude(
    a: u16,
    b: u16,
    c: u32,
    d: u32,
    e: u64,
    f: u64,
)
    ensures
        a < 0x8000 && b < 0x8000 ==> compare_as(
            ScalarValue::Float16(Some(a)),
            ScalarValue::Float16(Some(b)),
            a as int,
            b as int,
        ),
        a >= 0x8000 && b >= 0x8000 ==> compare_as(
            ScalarValue::Float16(Some(a)),
            ScalarValue::Float16(Some(b)),
            b as int,
            a as int,
        ),
        a >= 0x8000 && b < 0x8000 ==> scalar_order(
            ScalarValue::Float16(Some(a))@,
            ScalarValue::Float16(Some(b))@,
        ) == Some(Order::Less),
        c < 0x8000_0000 && d < 0x8000_0000 ==> compare_as(
            ScalarValue::Float32(Some(c)),
            ScalarValue::Float32(Some(d)),
            c as int,
            d as int,
        ),
        c >= 0x8000_0000 && d >= 0x8000_0000 ==> compare_as(
            ScalarValue::Float32(Some(c)),
            ScalarValue::Float32(Some(d)),
            d as int,
            c as int,
        ),
        c >= 0x8000_0000 && d < 0x8000_0000 ==> scalar_order(
            ScalarValue::Float32(Some(c))@,
            ScalarValue::Float32(Some(d))@,
        ) == Some(Order::Less),
        e < 0x8000_0000_0000_0000 && f < 0x8000_0000_0000_0000 ==> compare_as(
            ScalarValue::Float64(Some(e)),
            ScalarValue::Float64(Some(f)),
            e as int,
            f as int,
        ),
        e >= 0x8000_0000_0000_0000 && f >= 0x8000_0000_0000_0000 ==> compare_as(
            ScalarValue::Float64(Some(e)),
            ScalarValue::Float64(Some(f)),
            f as int,
            e as int,
        ),
        e >= 0x8000_0000_0000_0000 && f < 0x8000_0000_0000_0000 ==> scalar_order(
            ScalarValue::Float64(Some(e))@,
            ScalarValue::Float64(Some(f))@,
        ) == Some(Order::Less),
{
}

/// Intervals compare part by part, the largest part first.
pub proof fn intervals_compare_part_by_part(
    a: DayTime,
    b: DayTime,
    c: MonthDayNano,
    d: MonthDayNano,
)
    ensures
        a.days < b.days || (a.days == b.days && a.milliseconds < b.milliseconds) <==> scalar_order(
            ScalarValue::IntervalDayTime(Some(a))@,
            ScalarValue::IntervalDayTime(Some(b))@,
        ) == Some(Order::Less),
        a == b <==> scalar_order(
            ScalarValue::IntervalDayTime(Some(a))@,
            ScalarValue::IntervalDayTime(Some(b))@,
        ) == Some(Order::Equal),
        c.months < d.months || (c.months == d.months && (c.days < d.days || (c.days == d.days
            && c.nanoseconds < d.nanoseconds))) <==> scalar_order(
            ScalarValue::IntervalMonthDayNano(Some(c))@,
            ScalarValue::IntervalMonthDayNano(Some(d))@,
        ) == Some(Order::Less),
        c == d <==> scalar_order(
            ScalarValue::IntervalMonthDayNano(Some(c))@,
            ScalarValue::IntervalMonthDayNano(Some(d))@,
        ) == Some(Order::Equal),
{
}

/// `a` comes before `b` in a dictionary: they agree on their first `n` places,
/// and then `a` ends or has the smaller entry.
pub open spec fn precedes_at(a: Seq<int>, b: Seq<int>, n: int) -> bool {
    &&& 0 <= n <= a.len()
    &&& n < b.len()
    &&& forall|i: int| 0 <= i < n ==> #[trigger] a[i] == b[i]
    &&& n == a.len() || a[n] < b[n]
}

/// A sequence that comes before another in a dictionary compares as less.
pub proof fn dictionary_order(a: Seq<int>, b: Seq<int>, n: int)
    requires
        precedes_at(a, b, n),
    ensures
        seq_order(a, b) == Order::Less,
        seq_order(b, a) == Order::Greater,
    decreases n,
{
    if n > 0 {
        let x = a.drop_first();
        let y = b.drop_first();
        assert(a[0] == b[0]);
        assert forall|i: int| 0 <= i < n - 1 implies #[trigger] x[i] == y[i] by {
            assert(a[i + 1] == b[i + 1]);
        }
        dictionary_order(x, y, n - 1);
    }
}

/// A sequence that compares as less comes before the other in a dictionary.
pub proof fn dictionary_place(a: Seq<int>, b: Seq<int>)
    requires
        seq_order(a, b) == Order::Less,
    ensures
        exists|n: int| precedes_at(a, b, n),
    decreases a.len(),
{
    if a.len() == 0 {
        assert(precedes_at(a, b, 0));
    } else if b.len() > 0 && a[0] == b[0] {
        let x = a.drop_first();
        let y = b.drop_first();
        dictionary_place(x, y);
        let n = choose|n: int| precedes_at(x, y, n);
        assert forall|i: int| 0 <= i < n + 1 implies #[trigger] a[i] == b[i] by {
            if i > 0 {
                assert(x[i - 1] == y[i - 1]);
            }
        }
        assert(precedes_at(a, b, n + 1));
    } else {
        assert(precedes_at(a, b, 0));
    }
}

/// Texts compare by the first character in which they differ, a text before
/// those that it starts; equal ones are the same text.
pub proof fn texts_compare_by_first_difference(a: String, b: String, n: int)
    ensures
        0 <= n <= a@.len() && n < b@.len() && a@.take(n) == b@.take(n) && (n == a@.len() || (a@[n]
            as int) < (b@[n] as int)) ==> scalar_order(
            ScalarValue::Utf8(Some(a))@,
            ScalarValue::Utf8(Some(b))@,
        ) == Some(Order::Less),
        a@ == b@ <==> scalar_order(
            ScalarValue::Utf8(Some(a))@,
            ScalarValue::Utf8(Some(b))@,
        ) == Some(Order::Equal),
        0 <= n <= a@.len() && n < b@.len() && a@.take(n) == b@.take(n) && (n == a@.len() || (a@[n]
            as int) < (b@[n] as int)) ==> scalar_order(
            ScalarValue::LargeUtf8(Some(a))@,
            ScalarValue::LargeUtf8(Some(b))@,
        ) == Some(Order::Less),
        a@ == b@ <==> scalar_order(
            ScalarValue::LargeUtf8(Some(a))@,
            ScalarValue::LargeUtf8(Some(b))@,
        ) == Some(Order::Equal),
        0 <= n <= a@.len() && n < b@.len() && a@.take(n) == b@.take(n) && (n == a@.len() || (a@[n]
            as int) < (b@[n] as int)) ==> scalar_order(
            ScalarValue::Utf8View(Some(a))@,
            ScalarValue::Utf8View(Some(b))@,
        ) == Some(Order::Less),
        a@ == b@ <==> scalar_order(
            ScalarValue::Utf8View(Some(a))@,
            ScalarValue::Utf8View(Some(b))@,
        ) == Some(Order::Equal),
{
    let x = Seq::new(a@.len(), |i: int| a@[i] as int);
    let y = Seq::new(b@.len(), |i: int| b@[i] as int);
    assert(x =~= code_points(a@));
    assert(y =~= code_points(b@));
    if 0 <= n <= a@.len() && n < b@.len() && a@.take(n) == b@.take(n) && (n == a@.len() || (a@[n]
        as int) < (b@[n] as int)) {
        assert forall|i: int| 0 <= i < n implies #[trigger] x[i] == y[i] by {
            assert(a@.take(n)[i] == b@.take(n)[i]);
        }
        dictionary_order(x, y, n);
    }
    key_order_equal(ScalarKey::Text(a@), ScalarKey::Text(b@));
}

/// Byte strings compare by the first byte in which they differ, one before those
/// that it starts; equal ones are the same bytes.
pub proof fn bytes_compare_by_first_difference(a: Vec<u8>, b: Vec<u8>, w: i32, v: i32, n: int)
    ensures
        0 <= n <= a@.len() && n < b@.len() && a@.take(n) == b@.take(n) && (n == a@.len() || a@[n]
            < b@[n]) ==> scalar_order(
            ScalarValue::Binary(Some(a))@,
            ScalarValue::Binary(Some(b))@,
        ) == Some(Order::Less),
        a@ == b@ <==> scalar_order(
            ScalarValue::Binary(Some(a))@,
            ScalarValue::Binary(Some(b))@,
        ) == Some(Order::Equal),
        0 <= n <= a@.len() && n < b@.len() && a@.take(n) == b@.take(n) && (n == a@.len() || a@[n]
            < b@[n]) ==> scalar_order(
            ScalarValue::LargeBinary(Some(a))@,
            ScalarValue::LargeBinary(Some(b))@,
        ) == Some(Order::Less),
        a@ == b@ <==> scalar_order(
            ScalarValue::LargeBinary(Some(a))@,
            ScalarValue::LargeBinary(Some(b))@,
        ) == Some(Order::Equal),
        0 <= n <= a@.len() && n < b@.len() && a@.take(n) == b@.take(n) && (n == a@.len() || a@[n]
            < b@[n]) ==> scalar_order(
            ScalarValue::BinaryView(Some(a))@,
            ScalarValue::BinaryView(Some(b))@,
        ) == Some(Order::Less),
        a@ == b@ <==> scalar_order(
            ScalarValue::BinaryView(Some(a))@,
            ScalarValue::BinaryView(Some(b))@,
        ) == Some(Order::Equal),
        0 <= n <= a@.len() && n < b@.len() && a@.take(n) == b@.take(n) && (n == a@.len() || a@[n]
            < b@[n]) ==> scalar_order(
            ScalarValue::FixedSizeBinary(w, Some(a))@,
            ScalarValue::FixedSizeBinary(v, Some(b))@,
        ) == Some(Order::Less),
        a@ == b@ <==> scalar_order(
            ScalarValue::FixedSizeBinary(w, Some(a))@,
            ScalarValue::FixedSizeBinary(v, Some(b))@,
        ) == Some(Order::Equal),
{
    let x = Seq::new(a@.len(), |i: int| a@[i] as int);
    let y = Seq::new(b@.len(), |i: int| b@[i] as int);
    assert(x =~= byte_values(a@));
    assert(y =~= byte_values(b@));
    if 0 <= n <= a@.len() && n < b@.len() && a@.take(n) == b@.take(n) && (n == a@.len() || a@[n]
        < b@[n]) {
        assert forall|i: int| 0 <= i < n implies #[trigger] x[i] == y[i] by {
            assert(a@.take(n)[i] == b@.take(n)[i]);
        }
        dictionary_order(x, y, n);
    }
    key_order_equal(ScalarKey::Bytes(a@), ScalarKey::Bytes(b@));
}

/// A null comes before every value that it compares with and equals every null
/// that it compares with. Values compare exactly when their types are the same,
/// the time zone of a timestamp and the width of a byte string left aside.
pub proof fn nulls_come_first(a: ScalarView, b: ScalarView)
    ensures
        a.key is None && b.key is Some && scalar_order(a, b) is Some ==> scalar_order(a, b) == Some(
            Order::Less,
        ),
        a.key is None && b.key is None && scalar_order(a, b) is Some ==> scalar_order(a, b) == Some(
            Order::Equal,
        ),
        scalar_order(a, b) is Some <==> match (a.data_type, b.data_type) {
            (DataTypeOf::Timestamp(x, _), DataTypeOf::Timestamp(y, _)) => x == y,
            (DataTypeOf::FixedSizeBinary(_), DataTypeOf::FixedSizeBinary(_)) => true,
            (x, y) => x == y,
        },
{
}

/// What is wanted: the value that compares as equal, or any null where null is
/// wanted.
pub proof fn wanted_is_equal_or_null(value: ScalarView, wanted: ScalarView)
    ensures
        wanted.key is Some ==> (is_wanted(value, wanted) <==> scalar_order(value, wanted) == Some(
            Order::Equal,
        )),
        wanted.key is None ==> (is_wanted(value, wanted) <==> value.key is None),
{
    scalar_order_equal(value, wanted);
}

/// A value is null exactly when it holds nothing, and has the type that its
/// variant names.
pub proof fn value_has_its_type(v: ScalarValue)
    ensures
        match v {
            ScalarValue::Null => v@.data_type is Null && v@.key is None,
            ScalarValue::Boolean(x) => v@.data_type is Boolean && (v@.key is None <==> x is None),
            ScalarValue::Int8(x) => v@.data_type is Int8 && (v@.key is None <==> x is None),
            ScalarValue::Int16(x) => v@.data_type is Int16 && (v@.key is None <==> x is None),
            ScalarValue::Int32(x) => v@.data_type is Int32 && (v@.key is None <==> x is None),
            ScalarValue::Int64(x) => v@.data_type is Int64 && (v@.key is None <==> x is None),
            ScalarValue::UInt8(x) => v@.data_type is UInt8 && (v@.key is None <==> x is None),
            ScalarValue::UInt16(x) => v@.data_type is UInt16 && (v@.key is None <==> x is None),
            ScalarValue::UInt32(x) => v@.data_type is UInt32 && (v@.key is None <==> x is None),
            ScalarValue::UInt64(x) => v@.data_type is UInt64 && (v@.key is None <==> x is None),
            ScalarValue::Date32(x) => v@.data_type is Date32 && (v@.key is None <==> x is None),
            ScalarValue::Date64(x) => v@.data_type is Date64 && (v@.key is None <==> x is None),
            ScalarValue::Time32Second(x) => v@.data_type is Time32Second && (v@.key is None <==> x is None),
            ScalarValue::Time32Millisecond(x) => v@.data_type is Time32Millisecond && (v@.key is None <==> x is None),
            ScalarValue::Time64Microsecond(x) => v@.data_type is Time64Microsecond && (v@.key is None <==> x is None),
            ScalarValue::Time64Nanosecond(x) => v@.data_type is Time64Nanosecond && (v@.key is None <==> x is None),
            ScalarValue::IntervalYearMonth(x) => v@.data_type is IntervalYearMonth && (v@.key is None <==> x is None),
            ScalarValue::Float16(x) => v@.data_type is Float16 && (v@.key is None <==> x is None),
            ScalarValue::Float32(x) => v@.data_type is Float32 && (v@.key is None <==> x is None),
            ScalarValue::Float64(x) => v@.data_type is Float64 && (v@.key is None <==> x is None),
            ScalarValue::Utf8(x) => v@.data_type is Utf8 && (v@.key is None <==> x is None),
            ScalarValue::LargeUtf8(x) => v@.data_type is LargeUtf8 && (v@.key is None <==> x is None),
            ScalarValue::Utf8View(x) => v@.data_type is Utf8View && (v@.key is None <==> x is None),
            ScalarValue::Binary(x) => v@.data_type is Binary && (v@.key is None <==> x is None),
            ScalarValue::LargeBinary(x) => v@.data_type is LargeBinary && (v@.key is None <==> x is None),
            ScalarValue::BinaryView(x) => v@.data_type is BinaryView && (v@.key is None <==> x is None),
            ScalarValue::IntervalDayTime(x) => v@.data_type is IntervalDayTime && (v@.key is None <==> x is None),
            ScalarValue::IntervalMonthDayNano(x) => v@.data_type is IntervalMonthDayNano && (v@.key is None <==> x is None),
            ScalarValue::Decimal32(x, p, s) => v@.data_type == DataTypeView::Decimal32(p, s) && (v@.key is None
                <==> x is None),
            ScalarValue::Decimal64(x, p, s) => v@.data_type == DataTypeView::Decimal64(p, s) && (v@.key is None
                <==> x is None),
            ScalarValue::Decimal128(x, p, s) => v@.data_type == DataTypeView::Decimal128(p, s) && (v@.key is None
                <==> x is None),
            ScalarValue::Decimal256(x, p, s) => v@.data_type == DataTypeView::Decimal256(p, s) && (v@.key is None
                <==> x is None),
            ScalarValue::FixedSizeBinary(n, x) => v@.data_type == DataTypeView::FixedSizeBinary(n) && (
            v@.key is None <==> x is None),
            ScalarValue::TimestampSecond(x, zone) => (v@.key is None <==> x is None) && (
            v@.data_type matches DataTypeOf::Timestamp(TimeUnit::Second, z) && match (zone, z) {
                (Some(a), Some(b)) => a@ == b,
                (None, None) => true,
                _ => false,
            }),
            ScalarValue::DurationSecond(x) => (v@.key is None <==> x is None) && v@.data_type
                == DataTypeView::Duration(TimeUnit::Second),
            ScalarValue::TimestampMillisecond(x, zone) => (v@.key is None <==> x is None) && (
            v@.data_type matches DataTypeOf::Timestamp(TimeUnit::Millisecond, z) && match (zone, z) {
                (Some(a), Some(b)) => a@ == b,
                (None, None) => true,
                _ => false,
            }),
            ScalarValue::DurationMillisecond(x) => (v@.key is None <==> x is None) && v@.data_type
                == DataTypeView::Duration(TimeUnit::Millisecond),
            ScalarValue::TimestampMicrosecond(x, zone) => (v@.key is None <==> x is None) && (
            v@.data_type matches DataTypeOf::Timestamp(TimeUnit::Microsecond, z) && match (zone, z) {
                (Some(a), Some(b)) => a@ == b,
                (None, None) => true,
                _ => false,
            }),
            ScalarValue::DurationMicrosecond(x) => (v@.key is None <==> x is None) && v@.data_type
                == DataTypeView::Duration(TimeUnit::Microsecond),
            ScalarValue::TimestampNanosecond(x, zone) => (v@.key is None <==> x is None) && (
            v@.data_type matches DataTypeOf::Timestamp(TimeUnit::Nanosecond, z) && match (zone, z) {
                (Some(a), Some(b)) => a@ == b,
                (None, None) => true,
                _ => false,
            }),
            ScalarValue::DurationNanosecond(x) => (v@.key is None <==> x is None) && v@.data_type
                == DataTypeView::Duration(TimeUnit::Nanosecond),
        },
{
}

/// A value of another type has that type and is null, or holds the same, exactly
/// as before.
pub proof fn retyping_keeps_the_value(v: ScalarView, t: DataTypeView, w: ScalarView)
    ensures
        with_type(v, t).data_type == t,
        with_type(v, t).key is None <==> v.key is None,
        v.key is Some ==> with_type(v, t).key->0 == v.key->0,
        crate::datatype::kind_of(t) == crate::datatype::kind_of(v.data_type) ==> scalar_order(
            with_type(v, t),
            w,
        ) == scalar_order(v, w),
{
}

/// Values in a contract are the values themselves, in order.
pub proof fn values_show_themselves(v: Seq<ScalarValue>, i: int)
    ensures
        scalars(v).len() == v.len(),
        0 <= i < v.len() ==> scalars(v)[i] == v[i]@,
{
}

} // verus!
