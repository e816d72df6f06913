//! Values of any kind, present or absent.

use crate::types::chrono_wrapper::naive_date_exists;
use crate::types::chrono_wrapper::naive_datetime_exists;
use crate::types::chrono_wrapper::naive_time_valid;
use crate::types::chrono_wrapper::NaiveDateTimeWrapper;
use crate::types::chrono_wrapper::NaiveDateWrapper;
use crate::types::chrono_wrapper::NaiveTimeWrapper;
use crate::types::data_type::TypeModel;
use crate::types::native::Decimal;
use crate::types::native::IntervalUnit;
use crate::types::native::OrderedF32;
use crate::types::native::OrderedF64;
use vstd::prelude::*;

verus! {

/// A value that may be absent.
pub type Datum = Option<ScalarImpl>;

/// One value of one of the kinds that a slot can hold.
#[derive(Debug, PartialEq, Eq)]
pub enum ScalarImpl {
    Int16(i16),
    Int32(i32),
    Int64(i64),
    Float32(OrderedF32),
    Float64(OrderedF64),
    Utf8(String),
    Bool(bool),
    Decimal(Decimal),
    Interval(IntervalUnit),
    NaiveDate(NaiveDateWrapper),
    NaiveDateTime(NaiveDateTimeWrapper),
    NaiveTime(NaiveTimeWrapper),
    Struct(StructValue),
    List(ListValue),
}

/// The fields of one row, in declared order.
#[derive(Debug, PartialEq, Eq)]
pub struct StructValue {
    pub fields: Vec<Datum>,
}

/// The elements of one list, in order.
#[derive(Debug, PartialEq, Eq)]
pub struct ListValue {
    pub values: Vec<Datum>,
}

/// What a value is, apart from how it is held in memory.
pub enum ScalarModel {
    Int16(i16),
    Int32(i32),
    Int64(i64),
    /// The bit pattern of a 32-bit IEEE-754 number.
    Float32(u32),
    /// The bit pattern of a 64-bit IEEE-754 number.
    Float64(u64),
    Utf8(Seq<char>),
    Bool(bool),
    /// The sixteen bytes of a decimal's unordered serialization.
    Decimal(Seq<u8>),
    Interval { months: i32, days: i32, ms: i64 },
    /// A date by its day number.
    NaiveDate { days: i32 },
    /// A timestamp by its seconds from the start of 1970 and nanoseconds.
    NaiveDateTime { secs: i64, nsecs: u32 },
    /// A time of day by its seconds from midnight and nanoseconds.
    NaiveTime { midnight_secs: u32, nano: u32 },
    Struct(Seq<Option<ScalarModel>>),
    List(Seq<Option<ScalarModel>>),
}

/// What a value that may be absent is.
pub type DatumModel = Option<ScalarModel>;

/// What the value is.
pub open spec fn scalar_model(scalar: ScalarImpl) -> ScalarModel
    decreases scalar,
{
    match scalar {
        ScalarImpl::Int16(v) => ScalarModel::Int16(v),
        ScalarImpl::Int32(v) => ScalarModel::Int32(v),
        ScalarImpl::Int64(v) => ScalarModel::Int64(v),
        ScalarImpl::Float32(v) => ScalarModel::Float32(v@),
        ScalarImpl::Float64(v) => ScalarModel::Float64(v@),
        ScalarImpl::Utf8(v) => ScalarModel::Utf8(v@),
        ScalarImpl::Bool(v) => ScalarModel::Bool(v),
        ScalarImpl::Decimal(v) => ScalarModel::Decimal(v@),
        ScalarImpl::Interval(v) => ScalarModel::Interval { months: v@.0, days: v@.1, ms: v@.2 },
        ScalarImpl::NaiveDate(v) => ScalarModel::NaiveDate { days: v@ },
        ScalarImpl::NaiveDateTime(v) => ScalarModel::NaiveDateTime { secs: v@.0, nsecs: v@.1 },
        ScalarImpl::NaiveTime(v) => ScalarModel::NaiveTime { midnight_secs: v@.0, nano: v@.1 },
        ScalarImpl::Struct(v) => ScalarModel::Struct(datums_model(v.fields@)),
        ScalarImpl::List(v) => ScalarModel::List(datums_model(v.values@)),
    }
}

/// What the value is, or that it is absent.
pub open spec fn datum_model(datum: Datum) -> DatumModel
    decreases datum,
{
    match datum {
        Some(scalar) => Some(scalar_model(scalar)),
        None => None,
    }
}

/// What the values are, each at its place.
pub open spec fn datums_model(datums: Seq<Datum>) -> Seq<DatumModel>
    decreases datums,
{
    Seq::new(
        datums.len(),
        |i: int|
            if 0 <= i < datums.len() {
                datum_model(datums[i])
            } else {
                None
            },
    )
}

impl View for ScalarImpl {
    type V = ScalarModel;

    open spec fn view(&self) -> ScalarModel {
        scalar_model(*self)
    }
}

impl View for StructValue {
    type V = Seq<DatumModel>;

    open spec fn view(&self) -> Seq<DatumModel> {
        datums_model(self.fields@)
    }
}

impl View for ListValue {
    type V = Seq<DatumModel>;

    open spec fn view(&self) -> Seq<DatumModel> {
        datums_model(self.values@)
    }
}

impl StructValue {
    pub fn new(fields: Vec<Datum>) -> (r: Self)
        ensures
            r.fields == fields,
    {
        StructValue { fields }
    }

    pub fn fields(&self) -> (fields: &Vec<Datum>)
        ensures
            *fields == self.fields,
    {
        &self.fields
    }
}

impl ListValue {
    pub fn new(values: Vec<Datum>) -> (r: Self)
        ensures
            r.values == values,
    {
        ListValue { values }
    }

    pub fn values(&self) -> (values: &Vec<Datum>)
        ensures
            *values == self.values,
    {
        &self.values
    }
}

/// Whether the value, where it is present, is one whose every part is one
/// that its kind allows.
pub open spec fn datum_wf(datum: DatumModel) -> bool {
    datum matches Some(value) ==> value.wf()
}

impl ScalarModel {
    /// Whether every part of the value is one that its kind allows: a decimal
    /// of sixteen bytes, a date that the calendar has, a time within the day.
    pub open spec fn wf(self) -> bool
        decreases self,
    {
        match self {
            ScalarModel::Decimal(bytes) => bytes.len() == 16,
            ScalarModel::NaiveDate { days } => naive_date_exists(days),
            ScalarModel::NaiveDateTime { secs, nsecs } => naive_datetime_exists(secs, nsecs),
            ScalarModel::NaiveTime { midnight_secs, nano } => naive_time_valid(midnight_secs, nano),
            ScalarModel::Struct(fields) => forall|i: int|
                0 <= i < fields.len() ==> (#[trigger] fields[i] matches Some(field)
                    ==> field.wf()),
            ScalarModel::List(values) => forall|i: int|
                0 <= i < values.len() ==> (#[trigger] values[i] matches Some(value)
                    ==> value.wf()),
            _ => true,
        }
    }

    /// Whether the value is one of type `ty`. An absent field goes with any
    /// type; a 64-bit integer also stands for a timestamp with time zone.
    pub open spec fn has_type(self, ty: TypeModel) -> bool
        decreases self,
    {
        match self {
            ScalarModel::Int16(_) => ty is Int16,
            ScalarModel::Int32(_) => ty is Int32,
            ScalarModel::Int64(_) => ty is Int64 || ty is Timestampz,
            ScalarModel::Float32(_) => ty is Float32,
            ScalarModel::Float64(_) => ty is Float64,
            ScalarModel::Utf8(_) => ty is Varchar,
            ScalarModel::Bool(_) => ty is Boolean,
            ScalarModel::Decimal(_) => ty is Decimal,
            ScalarModel::Interval { .. } => ty is Interval,
            ScalarModel::NaiveDate { .. } => ty is Date,
            ScalarModel::NaiveDateTime { .. } => ty is Timestamp,
            ScalarModel::NaiveTime { .. } => ty is Time,
            ScalarModel::Struct(fields) => ty matches TypeModel::Struct { fields: types }
                && types.len() == fields.len() && forall|i: int|
                0 <= i < fields.len() ==> (#[trigger] fields[i] matches Some(field)
                    ==> field.has_type(types[i])),
            ScalarModel::List(values) => ty matches TypeModel::List { datatype } && forall|i: int|
                0 <= i < values.len() ==> (#[trigger] values[i] matches Some(value)
                    ==> value.has_type(*datatype)),
        }
    }
}

/// A copy of the value.
pub fn clone_scalar(scalar: &ScalarImpl) -> (copy: ScalarImpl)
    ensures
        copy@ == scalar@,
    decreases scalar, 0nat,
{
    match scalar {
        ScalarImpl::Int16(v) => ScalarImpl::Int16(*v),
        ScalarImpl::Int32(v) => ScalarImpl::Int32(*v),
        ScalarImpl::Int64(v) => ScalarImpl::Int64(*v),
        ScalarImpl::Float32(v) => ScalarImpl::Float32(*v),
        ScalarImpl::Float64(v) => ScalarImpl::Float64(*v),
        ScalarImpl::Utf8(v) => ScalarImpl::Utf8(v.clone()),
        ScalarImpl::Bool(v) => ScalarImpl::Bool(*v),
        ScalarImpl::Decimal(v) => ScalarImpl::Decimal(*v),
        ScalarImpl::Interval(v) => ScalarImpl::Interval(*v),
        ScalarImpl::NaiveDate(v) => ScalarImpl::NaiveDate(*v),
        ScalarImpl::NaiveDateTime(v) => ScalarImpl::NaiveDateTime(*v),
        ScalarImpl::NaiveTime(v) => ScalarImpl::NaiveTime(*v),
        ScalarImpl::Struct(v) => ScalarImpl::Struct(
            StructValue { fields: clone_datums(&v.fields) },
        ),
        ScalarImpl::List(v) => ScalarImpl::List(ListValue { values: clone_datums(&v.values) }),
    }
}

/// A copy of the values, each at its place.
pub fn clone_datums(datums: &Vec<Datum>) -> (copy: Vec<Datum>)
    ensures
        datums_model(copy@) == datums_model(datums@),
    decreases datums, 1nat,
{
    let mut copy: Vec<Datum> = Vec::new();
    let mut i: usize = 0;
    while i < datums.len()
        invariant
            i <= datums.len(),
            copy@.len() == i,
            forall|k: int|
                0 <= k < i ==> datum_model(#[trigger] copy@[k]) == datum_model(datums@[k]),
        decreases datums.len() - i,
    {
        let datum = match &datums[i] {
            Some(scalar) => Some(clone_scalar(scalar)),
            None => None,
        };
        copy.push(datum);
        i += 1;
    }
    assert(datums_model(copy@) =~= datums_model(datums@));
    copy
}

impl Clone for ScalarImpl {
    fn clone(&self) -> (copy: Self)
        ensures
            copy@ == self@,
    {
        clone_scalar(self)
    }
}

impl Clone for StructValue {
    fn clone(&self) -> (copy: Self)
        ensures
            copy@ == self@,
    {
        StructValue { fields: clone_datums(&self.fields) }
    }
}

impl Clone for ListValue {
    fn clone(&self) -> (copy: Self)
        ensures
            copy@ == self@,
    {
        ListValue { values: clone_datums(&self.values) }
    }
}

} // verus!
