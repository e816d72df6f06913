//! Schemas.

use vstd::prelude::*;

verus! {

/// The schema of one column, field or value slot.
#[derive(Debug, PartialEq, Eq)]
pub enum DataType {
    Int16,
    Int32,
    Int64,
    Float32,
    Float64,
    Decimal,
    Date,
    Varchar,
    Time,
    Timestamp,
    Timestampz,
    Interval,
    Boolean,
    /// A row of fields, in declared order.
    Struct { fields: Vec<DataType> },
    /// A list of elements of one type.
    List { datatype: Box<DataType> },
}

/// What a schema says, apart from how it is held in memory.
pub enum TypeModel {
    Int16,
    Int32,
    Int64,
    Float32,
    Float64,
    Decimal,
    Date,
    Varchar,
    Time,
    Timestamp,
    Timestampz,
    Interval,
    Boolean,
    Struct { fields: Seq<TypeModel> },
    List { datatype: Box<TypeModel> },
}

/// What the schema says.
pub open spec fn type_model(ty: DataType) -> TypeModel
    decreases ty,
{
    match ty {
        DataType::Int16 => TypeModel::Int16,
        DataType::Int32 => TypeModel::Int32,
        DataType::Int64 => TypeModel::Int64,
        DataType::Float32 => TypeModel::Float32,
        DataType::Float64 => TypeModel::Float64,
        DataType::Decimal => TypeModel::Decimal,
        DataType::Date => TypeModel::Date,
        DataType::Varchar => TypeModel::Varchar,
        DataType::Time => TypeModel::Time,
        DataType::Timestamp => TypeModel::Timestamp,
        DataType::Timestampz => TypeModel::Timestampz,
        DataType::Interval => TypeModel::Interval,
        DataType::Boolean => TypeModel::Boolean,
        DataType::Struct { fields } => TypeModel::Struct { fields: types_model(fields@) },
        DataType::List { datatype } => TypeModel::List {
            datatype: Box::new(type_model(*datatype)),
        },
    }
}

/// What the schemas say, each at its place.
pub open spec fn types_model(types: Seq<DataType>) -> Seq<TypeModel>
    decreases types,
{
    Seq::new(
        types.len(),
        |i: int|
            if 0 <= i < types.len() {
                type_model(types[i])
            } else {
                TypeModel::Boolean
            },
    )
}

impl View for DataType {
    type V = TypeModel;

    open spec fn view(&self) -> TypeModel {
        type_model(*self)
    }
}

/// A copy of the schema.
#[verifier::loop_isolation(false)]
pub fn clone_type(ty: &DataType) -> (copy: DataType)
    ensures
        copy@ == ty@,
    decreases ty,
{
    match ty {
        DataType::Int16 => DataType::Int16,
        DataType::Int32 => DataType::Int32,
        DataType::Int64 => DataType::Int64,
        DataType::Float32 => DataType::Float32,
        DataType::Float64 => DataType::Float64,
        DataType::Decimal => DataType::Decimal,
        DataType::Date => DataType::Date,
        DataType::Varchar => DataType::Varchar,
        DataType::Time => DataType::Time,
        DataType::Timestamp => DataType::Timestamp,
        DataType::Timestampz => DataType::Timestampz,
        DataType::Interval => DataType::Interval,
        DataType::Boolean => DataType::Boolean,
        DataType::Struct { fields } => {
            let mut copy: Vec<DataType> = Vec::new();
            let mut i: usize = 0;
            while i < fields.len()
                invariant
                    i <= fields.len(),
                    copy@.len() == i,
                    forall|k: int| 0 <= k < i ==> (#[trigger] copy@[k])@ == fields@[k]@,
                decreases fields.len() - i,
            {
                copy.push(clone_type(&fields[i]));
                i += 1;
            }
            assert(types_model(copy@) =~= types_model(fields@));
            DataType::Struct { fields: copy }
        },
        DataType::List { datatype } => DataType::List { datatype: Box::new(clone_type(datatype)) },
    }
}

impl Clone for DataType {
    fn clone(&self) -> (copy: Self)
        ensures
            copy@ == self@,
    {
        clone_type(self)
    }
}

} // verus!
